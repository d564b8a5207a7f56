use vstd::prelude::*;
use tantivy::tokenizer::TokenStream;
use crate::compiled::{
    CompiledQuery, TantivyBoolQuery, TantivyQueryAst, Term, TermModel, TypedValue, ValueModel,
    view_list, lemma_view_list_len, lemma_view_list_index, lemma_view_list_push,
};
use crate::errors::{InvalidQuery, QueryError, ValueKind};
use crate::compiled::{bound_view, collect_terms, pairs_view, query_terms, simplify, simplify_query, TantivyRangeQuery};
use crate::literal::{interpret, Bound, JsonLiteral};
use crate::query_ast::{BoolQuery, NotNaNf32, QueryAst, RangeQuery, TermSetQuery};
use crate::literal::{
    bool_of_text, f64_key_of_text, i64_of_text, ip_of_text, parse_bool, parse_f64_key, parse_i64,
    parse_ip, parse_rfc3339, parse_u64, rfc3339_nanos, u64_of_text,
};
use crate::schema::{
    find_field_or_hit_dynamic, resolve, FieldEntry, FieldType, JsonObjectOptions, Schema,
};

verus! {

/// The tokens, with their positions, that the named analyzer produces for
/// `text`; `None` when no analyzer has that name.
pub uninterp spec fn tokens_of(tokenizer: Seq<char>, text: Seq<char>) -> Option<
    Seq<(usize, Seq<char>)>,
>;

pub open spec fn tokens_view(v: Seq<(usize, String)>) -> Seq<(usize, Seq<char>)> {
    v.map_values(|t: (usize, String)| (t.0, t.1@))
}

/// Relies on the analyzers of `tantivy::tokenizer::TokenizerManager::default`
/// and on `TextAnalyzer::token_stream` to split text into tokens.
#[verifier::external_body]
fn analyze_text(tokenizer: &str, text: &str) -> (r: Option<Vec<(usize, String)>>)
    ensures
        match r {
            Some(v) => tokens_of(tokenizer@, text@) == Some(tokens_view(v@)),
            None => tokens_of(tokenizer@, text@) is None,
        },
{
    let mut analyzer = tantivy::tokenizer::TokenizerManager::default().get(tokenizer)?;
    let mut stream = analyzer.token_stream(text);
    let mut tokens = Vec::new();
    while stream.advance() {
        tokens.push((stream.token().position, stream.token().text.clone()));
    }
    Some(tokens)
}

pub open spec fn text_term(field: usize, path: Option<Seq<char>>, text: Seq<char>) -> TermModel {
    TermModel { field, json_path: path, value: ValueModel::Str(text) }
}

/// The query for analysed text: nothing for no token, the term for one,
/// the phrase for more.
pub open spec fn tokens_query(
    field: usize,
    path: Option<Seq<char>>,
    tokens: Seq<(usize, Seq<char>)>,
) -> CompiledQuery {
    if tokens.len() == 0 {
        CompiledQuery::MatchNone
    } else if tokens.len() == 1 {
        CompiledQuery::Term(text_term(field, path, tokens[0].1))
    } else {
        CompiledQuery::Phrase {
            terms: tokens.map_values(|t: (usize, Seq<char>)| (t.0, text_term(field, path, t.1))),
            slop: 0,
        }
    }
}

/// The tokens of `text` when it is to be analysed and an analyzer applies.
pub open spec fn analysis(tokenizer: Option<String>, tokenize: bool, text: Seq<char>) -> Option<
    Seq<(usize, Seq<char>)>,
> {
    if tokenize {
        match tokenizer {
            Some(name) => tokens_of(name@, text),
            None => None,
        }
    } else {
        None
    }
}

/// The typed value a JSON field may hold for `text`: a date, a signed, an
/// unsigned or a float number, or a boolean, tried in this order.
pub open spec fn json_fast_value(text: Seq<char>) -> Option<ValueModel> {
    if let Some(v) = rfc3339_nanos(text) {
        Some(ValueModel::Date(v))
    } else if let Some(v) = i64_of_text(text) {
        Some(ValueModel::I64(v))
    } else if let Some(v) = u64_of_text(text) {
        Some(ValueModel::U64(v))
    } else if let Some(v) = f64_key_of_text(text) {
        Some(ValueModel::F64(v))
    } else if let Some(v) = bool_of_text(text) {
        Some(ValueModel::Bool(v))
    } else {
        None
    }
}

/// A JSON field is searched both for a typed value and for the text, as
/// alternatives; text that analyses to no token leaves the typed value
/// alone, and nothing to match when there is none.
pub open spec fn json_query(
    field: usize,
    path: Seq<char>,
    text: Seq<char>,
    tokenize: bool,
    options: JsonObjectOptions,
) -> CompiledQuery {
    let typed: Seq<CompiledQuery> = match json_fast_value(text) {
        Some(v) => seq![CompiledQuery::Term(TermModel { field, json_path: Some(path), value: v })],
        None => Seq::empty(),
    };
    match analysis(options.tokenizer, tokenize, text) {
        Some(tokens) => if tokens.len() > 0 {
            bool_should(typed.push(tokens_query(field, Some(path), tokens)))
        } else if typed.len() > 0 {
            bool_should(typed)
        } else {
            CompiledQuery::MatchNone
        },
        None => bool_should(typed.push(CompiledQuery::Term(text_term(field, Some(path), text)))),
    }
}

pub open spec fn bool_should(should: Seq<CompiledQuery>) -> CompiledQuery {
    CompiledQuery::Bool {
        must: Seq::empty(),
        must_not: Seq::empty(),
        should,
        filter: Seq::empty(),
    }
}

pub open spec fn term_of(field: usize, value: ValueModel) -> CompiledQuery {
    CompiledQuery::Term(TermModel { field, json_path: None, value })
}

pub open spec fn invalid_term(kind: ValueKind, entry: FieldEntry, value: Seq<char>) -> QueryError {
    QueryError::InvalidSearchTerm { expected_value_type: kind, field_name: entry.name@, value }
}

/// The query matching `value` in the field, read in the field's type.
pub open spec fn field_query(
    field: usize,
    entry: FieldEntry,
    json_path: Seq<char>,
    value: Seq<char>,
    tokenize: bool,
) -> Result<CompiledQuery, QueryError> {
    match entry.field_type {
        FieldType::U64 => match u64_of_text(value) {
            Some(v) => Ok(term_of(field, ValueModel::U64(v))),
            None => Err(invalid_term(ValueKind::U64, entry, value)),
        },
        FieldType::I64 => match i64_of_text(value) {
            Some(v) => Ok(term_of(field, ValueModel::I64(v))),
            None => Err(invalid_term(ValueKind::I64, entry, value)),
        },
        FieldType::F64 => match f64_key_of_text(value) {
            Some(v) => Ok(term_of(field, ValueModel::F64(v))),
            None => Err(invalid_term(ValueKind::F64, entry, value)),
        },
        FieldType::Bool => match bool_of_text(value) {
            Some(v) => Ok(term_of(field, ValueModel::Bool(v))),
            None => Err(invalid_term(ValueKind::Bool, entry, value)),
        },
        FieldType::Date => match rfc3339_nanos(value) {
            Some(v) => Ok(term_of(field, ValueModel::Date(v))),
            None => Err(invalid_term(ValueKind::Date, entry, value)),
        },
        FieldType::IpAddr => match ip_of_text(value) {
            Some(v) => Ok(term_of(field, ValueModel::IpAddr(v))),
            None => Err(invalid_term(ValueKind::IpAddr, entry, value)),
        },
        FieldType::Str(options) => match analysis(options.tokenizer, tokenize, value) {
            Some(tokens) => Ok(tokens_query(field, None, tokens)),
            None => Ok(CompiledQuery::Term(text_term(field, None, value))),
        },
        FieldType::JsonObject(options) => Ok(json_query(field, json_path, value, tokenize, options)),
        FieldType::Facet => Err(
            QueryError::UnsupportedFieldType { value_type: ValueKind::Facet, field_name: entry.name@ },
        ),
        FieldType::Bytes => Err(
            QueryError::UnsupportedFieldType { value_type: ValueKind::Bytes, field_name: entry.name@ },
        ),
    }
}

/// The query matching `value` at `full_path`.
pub open spec fn path_query(schema: &Schema, full_path: Seq<char>, value: Seq<char>, tokenize: bool) -> Result<
    CompiledQuery,
    QueryError,
> {
    match resolve(schema, full_path) {
        Ok((f, rest)) => field_query(f as usize, schema.fields@[f], rest, value, tokenize),
        Err(e) => Err(e),
    }
}

fn text_term_of(field: usize, path: Option<&str>, text: String) -> (r: Term)
    ensures
        r@ == text_term(
            field,
            match path {
                Some(p) => Some(p@),
                None => None,
            },
            text@,
        ),
{
    let json_path = match path {
        Some(p) => Some(p.to_string()),
        None => None,
    };
    Term { field, json_path, value: TypedValue::Str(text) }
}

/// Builds the query for the tokens of analysed text.
fn tokens_to_query(field: usize, path: Option<&str>, tokens: Vec<(usize, String)>) -> (r: TantivyQueryAst)
    ensures
        r@ == tokens_query(
            field,
            match path {
                Some(p) => Some(p@),
                None => None,
            },
            tokens_view(tokens@),
        ),
{
    let ghost p = match path {
        Some(p) => Some(p@),
        None => None,
    };
    let ghost toks = tokens_view(tokens@);
    let mut tokens = tokens;
    if tokens.len() == 0 {
        return TantivyQueryAst::MatchNone;
    }
    if tokens.len() == 1 {
        let (_, text) = tokens.pop().unwrap();
        return TantivyQueryAst::Term(text_term_of(field, path, text));
    }
    let n = tokens.len();
    let mut terms: Vec<(usize, Term)> = Vec::new();
    let mut i: usize = 0;
    while i < n
        invariant
            i <= n,
            n == tokens@.len(),
            toks == tokens_view(tokens@),
            p == (match path {
                Some(q) => Some(q@),
                None => None::<Seq<char>>,
            }),
            terms@.len() == i,
            forall|j: int| 0 <= j < i ==> (#[trigger] terms@[j]).0 == toks[j].0 && terms@[j].1@
                == text_term(field, p, toks[j].1),
        decreases n - i,
    {
        let position = tokens[i].0;
        let text = tokens[i].1.clone();
        assert(toks[i as int] == (position, text@));
        let term = text_term_of(field, path, text);
        terms.push((position, term));
        i = i + 1;
    }
    let r = TantivyQueryAst::Phrase { terms, slop: 0 };
    proof {
        let lhs = terms@.map_values(|t: (usize, Term)| (t.0, t.1@));
        let rhs = toks.map_values(|t: (usize, Seq<char>)| (t.0, text_term(field, p, t.1)));
        assert(lhs =~= rhs);
    }
    r
}

/// The tokens of `text` under the field's analyzer, when it is to be
/// analysed and the analyzer is known.
fn get_tokens(tokenizer: &Option<String>, tokenize: bool, text: &str) -> (r: Option<
    Vec<(usize, String)>,
>)
    ensures
        match r {
            Some(v) => analysis(*tokenizer, tokenize, text@) == Some(tokens_view(v@)),
            None => analysis(*tokenizer, tokenize, text@) is None,
        },
{
    if !tokenize {
        return None;
    }
    match tokenizer {
        Some(name) => analyze_text(name.as_str(), text),
        None => None,
    }
}

fn json_fast_term(field: usize, path: &str, text: &str) -> (r: Option<Term>)
    ensures
        match r {
            Some(t) => json_fast_value(text@) matches Some(v) && t@ == TermModel {
                field,
                json_path: Some(path@),
                value: v,
            },
            None => json_fast_value(text@) is None,
        },
{
    let value = if let Some(v) = parse_rfc3339(text) {
        TypedValue::Date(v)
    } else if let Some(v) = parse_i64(text) {
        TypedValue::I64(v)
    } else if let Some(v) = parse_u64(text) {
        TypedValue::U64(v)
    } else if let Some(v) = parse_f64_key(text) {
        TypedValue::F64(v)
    } else if let Some(v) = parse_bool(text) {
        TypedValue::Bool(v)
    } else {
        return None;
    };
    Some(Term { field, json_path: Some(path.to_string()), value })
}

/// The query for `text` in a JSON object field at `json_path`: the typed
/// value it may stand for, or the text, whichever is stored.
fn compute_tantivy_ast_query_for_json(
    field: usize,
    json_path: &str,
    text: &str,
    tokenize: bool,
    json_options: &JsonObjectOptions,
) -> (r: TantivyQueryAst)
    ensures
        r@ == json_query(field, json_path@, text@, tokenize, *json_options),
{
    let mut should: Vec<TantivyQueryAst> = Vec::new();
    let ghost typed: Seq<CompiledQuery> = match json_fast_value(text@) {
        Some(v) => seq![CompiledQuery::Term(TermModel { field, json_path: Some(json_path@), value: v })],
        None => Seq::empty(),
    };
    if let Some(term) = json_fast_term(field, json_path, text) {
        should.push(TantivyQueryAst::Term(term));
    }
    proof {
        lemma_view_list_len(should@);
        if should@.len() == 1 {
            lemma_view_list_index(should@, 0);
        }
        assert(view_list(should@) =~= typed);
    }
    let last = match get_tokens(&json_options.tokenizer, tokenize, text) {
        Some(tokens) => {
            if tokens.len() == 0 {
                if should.len() == 0 {
                    return TantivyQueryAst::MatchNone;
                }
                let r = TantivyQueryAst::Bool(
                    TantivyBoolQuery { must: Vec::new(), must_not: Vec::new(), should, filter: Vec::new() },
                );
                assert(view_list(Seq::<TantivyQueryAst>::empty()) == Seq::<CompiledQuery>::empty());
                return r;
            }
            tokens_to_query(field, Some(json_path), tokens)
        },
        None => TantivyQueryAst::Term(text_term_of(field, Some(json_path), text.to_string())),
    };
    let ghost before = should@;
    should.push(last);
    proof {
        lemma_view_list_push(before, last);
    }
    let r = TantivyQueryAst::Bool(
        TantivyBoolQuery { must: Vec::new(), must_not: Vec::new(), should, filter: Vec::new() },
    );
    assert(view_list(should@) == typed.push(last@));
    assert(view_list(Seq::<TantivyQueryAst>::empty()) == Seq::<CompiledQuery>::empty());
    assert(r@ == bool_should(typed.push(last@)));
    r
}

/// The query matching `value` in a resolved field, read in its type.
fn compute_query_with_field(
    field: usize,
    field_entry: &FieldEntry,
    json_path: &str,
    value: &str,
    tokenize: bool,
) -> (r: Result<TantivyQueryAst, InvalidQuery>)
    ensures
        match r {
            Ok(q) => field_query(field, *field_entry, json_path@, value@, tokenize) == Ok::<
                CompiledQuery,
                QueryError,
            >(q@),
            Err(e) => field_query(field, *field_entry, json_path@, value@, tokenize) == Err::<
                CompiledQuery,
                QueryError,
            >(e@),
        },
{
    let make_term = |v: TypedValue| -> (q: TantivyQueryAst)
        ensures
            q@ == term_of(field, v@),
        { TantivyQueryAst::Term(Term { field, json_path: None, value: v }) };
    match &field_entry.field_type {
        FieldType::U64 => match parse_u64(value) {
            Some(v) => Ok(make_term(TypedValue::U64(v))),
            None => Err(invalid_search_term(ValueKind::U64, field_entry, value)),
        },
        FieldType::I64 => match parse_i64(value) {
            Some(v) => Ok(make_term(TypedValue::I64(v))),
            None => Err(invalid_search_term(ValueKind::I64, field_entry, value)),
        },
        FieldType::F64 => match parse_f64_key(value) {
            Some(v) => Ok(make_term(TypedValue::F64(v))),
            None => Err(invalid_search_term(ValueKind::F64, field_entry, value)),
        },
        FieldType::Bool => match parse_bool(value) {
            Some(v) => Ok(make_term(TypedValue::Bool(v))),
            None => Err(invalid_search_term(ValueKind::Bool, field_entry, value)),
        },
        FieldType::Date => match parse_rfc3339(value) {
            Some(v) => Ok(make_term(TypedValue::Date(v))),
            None => Err(invalid_search_term(ValueKind::Date, field_entry, value)),
        },
        FieldType::IpAddr => match parse_ip(value) {
            Some(v) => Ok(make_term(TypedValue::IpAddr(v))),
            None => Err(invalid_search_term(ValueKind::IpAddr, field_entry, value)),
        },
        FieldType::Str(text_options) => match get_tokens(&text_options.tokenizer, tokenize, value) {
            Some(tokens) => Ok(tokens_to_query(field, None, tokens)),
            None => Ok(TantivyQueryAst::Term(text_term_of(field, None, value.to_string()))),
        },
        FieldType::JsonObject(json_options) => Ok(
            compute_tantivy_ast_query_for_json(field, json_path, value, tokenize, json_options),
        ),
        FieldType::Facet => Err(
            InvalidQuery::UnsupportedFieldType {
                value_type: ValueKind::Facet,
                field_name: field_entry.name.clone(),
            },
        ),
        FieldType::Bytes => Err(
            InvalidQuery::UnsupportedFieldType {
                value_type: ValueKind::Bytes,
                field_name: field_entry.name.clone(),
            },
        ),
    }
}

fn invalid_search_term(kind: ValueKind, field_entry: &FieldEntry, value: &str) -> (e: InvalidQuery)
    ensures
        e@ == invalid_term(kind, *field_entry, value@),
{
    InvalidQuery::InvalidSearchTerm {
        expected_value_type: kind,
        field_name: field_entry.name.clone(),
        value: value.to_string(),
    }
}

/// The query matching `value` at the path `full_path` of the schema.
pub(crate) fn compute_query(full_path: &str, value: &str, tokenize: bool, schema: &Schema) -> (r: Result<
    TantivyQueryAst,
    InvalidQuery,
>)
    requires
        schema.wf(),
    ensures
        match r {
            Ok(q) => path_query(schema, full_path@, value@, tokenize) == Ok::<CompiledQuery, QueryError>(q@),
            Err(e) => path_query(schema, full_path@, value@, tokenize) == Err::<CompiledQuery, QueryError>(e@),
        },
{
    let (field, field_entry, path) = match find_field_or_hit_dynamic(full_path, schema) {
        Ok(found) => found,
        Err(e) => {
            return Err(e);
        },
    };
    compute_query_with_field(field, field_entry, path, value, tokenize)
}

/// A bound of a range, read in the field's type.
pub open spec fn bound_spec(bound: Bound<JsonLiteral>, kind: ValueKind, field_name: Seq<char>) -> Result<
    Bound<ValueModel>,
    QueryError,
> {
    let bad = QueryError::InvalidBoundary { expected_value_type: kind, field_name };
    match bound {
        Bound::Included(v) => match interpret(v, kind) {
            Some(x) => Ok(Bound::Included(x)),
            None => Err(bad),
        },
        Bound::Excluded(v) => match interpret(v, kind) {
            Some(x) => Ok(Bound::Excluded(x)),
            None => Err(bad),
        },
        Bound::Unbounded => Ok(Bound::Unbounded),
    }
}

/// The kind under which a range is taken over a field of this type, or the
/// reason none can be.
pub open spec fn range_kind(field_type: FieldType) -> Result<ValueKind, ValueKind> {
    match field_type {
        FieldType::Str(_) => Ok(ValueKind::Str),
        FieldType::U64 => Ok(ValueKind::U64),
        FieldType::I64 => Ok(ValueKind::I64),
        FieldType::F64 => Ok(ValueKind::F64),
        FieldType::Date => Ok(ValueKind::Date),
        FieldType::IpAddr => Ok(ValueKind::IpAddr),
        FieldType::Bool => Err(ValueKind::Bool),
        FieldType::Facet => Err(ValueKind::Facet),
        FieldType::Bytes => Err(ValueKind::Bytes),
        FieldType::JsonObject(_) => Err(ValueKind::Json),
    }
}

/// A range query: the field must be fast and of an ordered type, and both
/// bounds must read in its type.
pub open spec fn range_spec(range: RangeQuery, schema: &Schema) -> Result<CompiledQuery, QueryError> {
    match resolve(schema, range.field@) {
        Err(e) => Err(e),
        Ok((f, _)) => {
            let entry = schema.fields@[f];
            if !entry.fast {
                Err(QueryError::SchemaError { field_name: entry.name@ })
            } else {
                match range_kind(entry.field_type) {
                    Err(kind) => Err(
                        QueryError::RangeQueryNotSupportedForField {
                            value_type: kind,
                            field_name: entry.name@,
                        },
                    ),
                    Ok(kind) => match bound_spec(range.lower_bound, kind, entry.name@) {
                        Err(e) => Err(e),
                        Ok(lower_bound) => match bound_spec(range.upper_bound, kind, entry.name@) {
                            Err(e) => Err(e),
                            Ok(upper_bound) => Ok(
                                CompiledQuery::Range {
                                    field: range.field@,
                                    value_type: kind,
                                    lower_bound,
                                    upper_bound,
                                },
                            ),
                        },
                    },
                }
            }
        },
    }
}

/// Reads a range bound in the type `kind`.
pub fn convert_bound(bound: &Bound<JsonLiteral>, field_name: &str, kind: ValueKind) -> (r: Result<
    Bound<TypedValue>,
    InvalidQuery,
>)
    ensures
        match r {
            Ok(b) => bound_spec(*bound, kind, field_name@) == Ok::<Bound<ValueModel>, QueryError>(
                bound_view(b),
            ),
            Err(e) => bound_spec(*bound, kind, field_name@) == Err::<Bound<ValueModel>, QueryError>(
                e@,
            ),
        },
{
    match bound {
        Bound::Included(val) => match val.interpret(kind) {
            Some(v) => Ok(Bound::Included(v)),
            None => Err(
                InvalidQuery::InvalidBoundary {
                    expected_value_type: kind,
                    field_name: field_name.to_string(),
                },
            ),
        },
        Bound::Excluded(val) => match val.interpret(kind) {
            Some(v) => Ok(Bound::Excluded(v)),
            None => Err(
                InvalidQuery::InvalidBoundary {
                    expected_value_type: kind,
                    field_name: field_name.to_string(),
                },
            ),
        },
        Bound::Unbounded => Ok(Bound::Unbounded),
    }
}

impl RangeQuery {
    /// Compiles the range against the schema.
    pub fn into_tantivy_ast_impl(&self, schema: &Schema) -> (r: Result<TantivyQueryAst, InvalidQuery>)
        requires
            schema.wf(),
        ensures
            match r {
                Ok(q) => range_spec(*self, schema) == Ok::<CompiledQuery, QueryError>(q@),
                Err(e) => range_spec(*self, schema) == Err::<CompiledQuery, QueryError>(e@),
            },
    {
        let (_field, field_entry, _path) = match find_field_or_hit_dynamic(self.field.as_str(), schema) {
            Ok(found) => found,
            Err(e) => {
                return Err(e);
            },
        };
        if !field_entry.fast {
            return Err(InvalidQuery::SchemaError { field_name: field_entry.name.clone() });
        }
        let kind = match &field_entry.field_type {
            FieldType::Str(_) => ValueKind::Str,
            FieldType::U64 => ValueKind::U64,
            FieldType::I64 => ValueKind::I64,
            FieldType::F64 => ValueKind::F64,
            FieldType::Date => ValueKind::Date,
            FieldType::IpAddr => ValueKind::IpAddr,
            FieldType::Bool => {
                return Err(unsupported_range(ValueKind::Bool, field_entry));
            },
            FieldType::Facet => {
                return Err(unsupported_range(ValueKind::Facet, field_entry));
            },
            FieldType::Bytes => {
                return Err(unsupported_range(ValueKind::Bytes, field_entry));
            },
            FieldType::JsonObject(_) => {
                return Err(unsupported_range(ValueKind::Json, field_entry));
            },
        };
        let name = field_entry.name.as_str();
        let lower_bound = match convert_bound(&self.lower_bound, name, kind) {
            Ok(b) => b,
            Err(e) => {
                return Err(e);
            },
        };
        let upper_bound = match convert_bound(&self.upper_bound, name, kind) {
            Ok(b) => b,
            Err(e) => {
                return Err(e);
            },
        };
        Ok(
            TantivyQueryAst::Range(
                TantivyRangeQuery { field: self.field.clone(), value_type: kind, lower_bound, upper_bound },
            ),
        )
    }
}

fn unsupported_range(kind: ValueKind, field_entry: &FieldEntry) -> (e: InvalidQuery)
    ensures
        e@ == (QueryError::RangeQueryNotSupportedForField {
            value_type: kind,
            field_name: field_entry.name@,
        }),
{
    InvalidQuery::RangeQueryNotSupportedForField {
        value_type: kind,
        field_name: field_entry.name.clone(),
    }
}

/// The executable result `r` is the compiled query or the error `s` gives.
pub open spec fn agrees(r: Result<TantivyQueryAst, InvalidQuery>, s: Result<CompiledQuery, QueryError>) -> bool {
    match r {
        Ok(q) => s == Ok::<CompiledQuery, QueryError>(q@),
        Err(e) => s == Err::<CompiledQuery, QueryError>(e@),
    }
}

/// The terms, with their position needs, of the values of a term set in one
/// field, each read in the field's type without analysis.
pub open spec fn value_terms(schema: &Schema, field: Seq<char>, values: Seq<String>) -> Result<
    Seq<(TermModel, bool)>,
    QueryError,
>
    decreases values.len(),
{
    if values.len() == 0 {
        Ok(Seq::empty())
    } else {
        match value_terms(schema, field, values.drop_last()) {
            Err(e) => Err(e),
            Ok(terms) => match path_query(schema, field, values.last()@, false) {
                Err(e) => Err(e),
                Ok(q) => Ok(terms + query_terms(q)),
            },
        }
    }
}

pub open spec fn term_set_terms(schema: &Schema, per_field: Seq<(String, Vec<String>)>) -> Result<
    Seq<(TermModel, bool)>,
    QueryError,
>
    decreases per_field.len(),
{
    if per_field.len() == 0 {
        Ok(Seq::empty())
    } else {
        match term_set_terms(schema, per_field.drop_last()) {
            Err(e) => Err(e),
            Ok(terms) => match value_terms(schema, per_field.last().0@, per_field.last().1@) {
                Err(e) => Err(e),
                Ok(more) => Ok(terms + more),
            },
        }
    }
}

/// A term set matches any term its values stand for, in any of its fields.
pub open spec fn term_set_spec(query: TermSetQuery, schema: &Schema) -> Result<CompiledQuery, QueryError> {
    match term_set_terms(schema, query.terms_per_field@) {
        Err(e) => Err(e),
        Ok(terms) => Ok(CompiledQuery::TermSet(terms.map_values(|p: (TermModel, bool)| p.0))),
    }
}

pub open spec fn with_slop(q: CompiledQuery, slop: u32) -> CompiledQuery {
    match q {
        CompiledQuery::Phrase { terms, .. } => CompiledQuery::Phrase { terms, slop },
        _ => q,
    }
}

/// Compilation of one node, its children going through [`compile`].
pub open spec fn compile_impl(q: QueryAst, schema: &Schema, with_validation: bool) -> Result<
    CompiledQuery,
    QueryError,
>
    decreases q, 0int,
{
    match q {
        QueryAst::Bool(b) => match compile_list(b.must@, schema, with_validation) {
            Err(e) => Err(e),
            Ok(must) => match compile_list(b.must_not@, schema, with_validation) {
                Err(e) => Err(e),
                Ok(must_not) => match compile_list(b.should@, schema, with_validation) {
                    Err(e) => Err(e),
                    Ok(should) => match compile_list(b.filter@, schema, with_validation) {
                        Err(e) => Err(e),
                        Ok(filter) => Ok(CompiledQuery::Bool { must, must_not, should, filter }),
                    },
                },
            },
        },
        QueryAst::Term(t) => path_query(schema, t.field@, t.value@, true),
        QueryAst::TermSet(t) => term_set_spec(t, schema),
        QueryAst::Phrase(p) => match path_query(schema, p.field@, p.phrase@, true) {
            Err(e) => Err(e),
            Ok(c) => Ok(with_slop(c, p.slop)),
        },
        QueryAst::Range(r) => range_spec(r, schema),
        QueryAst::UserText(_) => Err(QueryError::UserQueryNotParsed),
        QueryAst::MatchAll => Ok(CompiledQuery::MatchAll),
        QueryAst::MatchNone => Ok(CompiledQuery::MatchNone),
        QueryAst::Boost { underlying, boost } => match compile(*underlying, schema, with_validation) {
            Err(e) => Err(e),
            Ok(c) => Ok(CompiledQuery::Boost { underlying: Box::new(c), boost: boost.value() }),
        },
    }
}

/// Compilation of a node under the validation policy: without validation a
/// node that fails matches nothing instead.
pub open spec fn compile(q: QueryAst, schema: &Schema, with_validation: bool) -> Result<
    CompiledQuery,
    QueryError,
>
    decreases q, 1int,
{
    match compile_impl(q, schema, with_validation) {
        Err(e) => if with_validation {
            Err(e)
        } else {
            Ok(CompiledQuery::MatchNone)
        },
        Ok(c) => Ok(c),
    }
}

/// Compilation of a list of nodes; the first failure is reported.
pub open spec fn compile_list(s: Seq<QueryAst>, schema: &Schema, with_validation: bool) -> Result<
    Seq<CompiledQuery>,
    QueryError,
>
    decreases s, 0int,
{
    if s.len() == 0 {
        Ok(Seq::empty())
    } else {
        match compile_list(s.drop_last(), schema, with_validation) {
            Err(e) => Err(e),
            Ok(prefix) => match compile(s.last(), schema, with_validation) {
                Err(e) => Err(e),
                Ok(c) => Ok(prefix.push(c)),
            },
        }
    }
}

proof fn lemma_compile_list_prefix_err(s: Seq<QueryAst>, n: int, schema: &Schema, v: bool)
    requires
        0 <= n <= s.len(),
        compile_list(s.subrange(0, n), schema, v) is Err,
    ensures
        compile_list(s, schema, v) == compile_list(s.subrange(0, n), schema, v),
    decreases s.len() - n,
{
    if n < s.len() {
        let next = s.subrange(0, n + 1);
        assert(next.drop_last() =~= s.subrange(0, n));
        lemma_compile_list_prefix_err(s, n + 1, schema, v);
    } else {
        assert(s.subrange(0, n) =~= s);
    }
}

proof fn lemma_value_terms_prefix_err(schema: &Schema, field: Seq<char>, s: Seq<String>, n: int)
    requires
        0 <= n <= s.len(),
        value_terms(schema, field, s.subrange(0, n)) is Err,
    ensures
        value_terms(schema, field, s) == value_terms(schema, field, s.subrange(0, n)),
    decreases s.len() - n,
{
    if n < s.len() {
        assert(s.subrange(0, n + 1).drop_last() =~= s.subrange(0, n));
        lemma_value_terms_prefix_err(schema, field, s, n + 1);
    } else {
        assert(s.subrange(0, n) =~= s);
    }
}

proof fn lemma_term_set_prefix_err(schema: &Schema, s: Seq<(String, Vec<String>)>, n: int)
    requires
        0 <= n <= s.len(),
        term_set_terms(schema, s.subrange(0, n)) is Err,
    ensures
        term_set_terms(schema, s) == term_set_terms(schema, s.subrange(0, n)),
    decreases s.len() - n,
{
    if n < s.len() {
        assert(s.subrange(0, n + 1).drop_last() =~= s.subrange(0, n));
        lemma_term_set_prefix_err(schema, s, n + 1);
    } else {
        assert(s.subrange(0, n) =~= s);
    }
}

/// Appends the terms of the values of one field of a term set.
fn collect_value_terms(
    schema: &Schema,
    field: &str,
    values: &Vec<String>,
    out: &mut Vec<(Term, bool)>,
) -> (r: Result<(), InvalidQuery>)
    requires
        schema.wf(),
    ensures
        match (r, value_terms(schema, field@, values@)) {
            (Ok(_), Ok(terms)) => pairs_view(final(out)@) == pairs_view(old(out)@) + terms,
            (Err(e), Err(f)) => e@ == f,
            _ => false,
        },
{
    let mut i: usize = 0;
    assert(values@.subrange(0, 0) =~= Seq::<String>::empty());
    assert(pairs_view(out@) =~= pairs_view(old(out)@) + Seq::<(TermModel, bool)>::empty());
    while i < values.len()
        invariant
            schema.wf(),
            i <= values@.len(),
            value_terms(schema, field@, values@.subrange(0, i as int)) matches Ok(terms)
                && pairs_view(out@) == pairs_view(old(out)@) + terms,
        decreases values@.len() - i,
    {
        let ghost pre = values@.subrange(0, i as int);
        assert(values@.subrange(0, i + 1).drop_last() =~= pre);
        let q = match compute_query(field, values[i].as_str(), false, schema) {
            Ok(q) => q,
            Err(e) => {
                proof {
                    lemma_value_terms_prefix_err(schema, field@, values@, i + 1);
                }
                return Err(e);
            },
        };
        collect_terms(&q, out);
        proof {
            let terms = value_terms(schema, field@, pre)->Ok_0;
            assert(pairs_view(out@) =~= pairs_view(old(out)@) + (terms + query_terms(q@)));
        }
        i = i + 1;
    }
    assert(values@.subrange(0, i as int) =~= values@);
    Ok(())
}

impl TermSetQuery {
    /// Compiles the set against the schema.
    pub fn into_tantivy_ast_impl(&self, schema: &Schema) -> (r: Result<TantivyQueryAst, InvalidQuery>)
        requires
            schema.wf(),
        ensures
            agrees(r, term_set_spec(*self, schema)),
    {
        let mut pairs: Vec<(Term, bool)> = Vec::new();
        let mut i: usize = 0;
        let per_field = &self.terms_per_field;
        assert(per_field@.subrange(0, 0) =~= Seq::<(String, Vec<String>)>::empty());
        assert(pairs_view(pairs@) =~= Seq::<(TermModel, bool)>::empty());
        while i < per_field.len()
            invariant
                schema.wf(),
                per_field@ == self.terms_per_field@,
                i <= per_field@.len(),
                term_set_terms(schema, per_field@.subrange(0, i as int)) == Ok::<
                    Seq<(TermModel, bool)>,
                    QueryError,
                >(pairs_view(pairs@)),
            decreases per_field@.len() - i,
        {
            let ghost pre = per_field@.subrange(0, i as int);
            assert(per_field@.subrange(0, i + 1).drop_last() =~= pre);
            assert(per_field@.subrange(0, i + 1).last() == per_field@[i as int]);
            match collect_value_terms(schema, per_field[i].0.as_str(), &per_field[i].1, &mut pairs) {
                Ok(()) => {},
                Err(e) => {
                    proof {
                        assert(term_set_terms(schema, per_field@.subrange(0, i + 1)) == Err::<
                            Seq<(TermModel, bool)>,
                            QueryError,
                        >(e@));
                        lemma_term_set_prefix_err(schema, per_field@, i + 1);
                        assert(term_set_terms(schema, per_field@) == Err::<
                            Seq<(TermModel, bool)>,
                            QueryError,
                        >(e@));
                    }
                    return Err(e);
                },
            }
            i = i + 1;
        }
        assert(per_field@.subrange(0, i as int) =~= per_field@);
        let mut terms: Vec<Term> = Vec::new();
        let mut j: usize = 0;
        while j < pairs.len()
            invariant
                j <= pairs@.len(),
                terms@.len() == j,
                forall|k: int| 0 <= k < j ==> (#[trigger] terms@[k])@ == pairs@[k].0@,
            decreases pairs@.len() - j,
        {
            terms.push(pairs[j].0.copy());
            j = j + 1;
        }
        let r = TantivyQueryAst::TermSet(terms);
        assert(terms@.map_values(|t: Term| t@) =~= pairs_view(pairs@).map_values(
            |p: (TermModel, bool)| p.0,
        ));
        Ok(r)
    }
}

/// Compiles each node of a list, stopping at the first failure.
fn compile_vec(list: &Vec<QueryAst>, schema: &Schema, with_validation: bool) -> (r: Result<
    Vec<TantivyQueryAst>,
    InvalidQuery,
>)
    requires
        schema.wf(),
    ensures
        match (r, compile_list(list@, schema, with_validation)) {
            (Ok(v), Ok(s)) => view_list(v@) == s,
            (Err(e), Err(f)) => e@ == f,
            _ => false,
        },
    decreases list@, 0int,
{
    let mut out: Vec<TantivyQueryAst> = Vec::new();
    let mut i: usize = 0;
    assert(list@.subrange(0, 0) =~= Seq::<QueryAst>::empty());
    while i < list.len()
        invariant
            schema.wf(),
            i <= list@.len(),
            compile_list(list@.subrange(0, i as int), schema, with_validation) == Ok::<
                Seq<CompiledQuery>,
                QueryError,
            >(view_list(out@)),
        decreases list@.len() - i,
    {
        let ghost pre = list@.subrange(0, i as int);
        assert(list@.subrange(0, i + 1).drop_last() =~= pre);
        match list[i].into_tantivy_ast_call(schema, with_validation) {
            Ok(q) => {
                let ghost before = out@;
                out.push(q);
                proof {
                    lemma_view_list_push(before, q);
                }
            },
            Err(e) => {
                proof {
                    assert(compile_list(list@.subrange(0, i + 1), schema, with_validation) == Err::<
                        Seq<CompiledQuery>,
                        QueryError,
                    >(e@));
                    lemma_compile_list_prefix_err(list@, i + 1, schema, with_validation);
                }
                return Err(e);
            },
        }
        i = i + 1;
    }
    assert(list@.subrange(0, i as int) =~= list@);
    Ok(out)
}

impl BoolQuery {
    fn into_tantivy_ast_impl(&self, schema: &Schema, with_validation: bool) -> (r: Result<
        TantivyQueryAst,
        InvalidQuery,
    >)
        requires
            schema.wf(),
        ensures
            agrees(r, compile_impl(QueryAst::Bool(*self), schema, with_validation)),
        decreases *self, 0int,
    {
        let must = match compile_vec(&self.must, schema, with_validation) {
            Ok(v) => v,
            Err(e) => {
                return Err(e);
            },
        };
        let must_not = match compile_vec(&self.must_not, schema, with_validation) {
            Ok(v) => v,
            Err(e) => {
                return Err(e);
            },
        };
        let should = match compile_vec(&self.should, schema, with_validation) {
            Ok(v) => v,
            Err(e) => {
                return Err(e);
            },
        };
        let filter = match compile_vec(&self.filter, schema, with_validation) {
            Ok(v) => v,
            Err(e) => {
                return Err(e);
            },
        };
        Ok(TantivyQueryAst::Bool(TantivyBoolQuery { must, must_not, should, filter }))
    }
}

impl QueryAst {
    /// Compiles this node alone; children go through
    /// [`QueryAst::into_tantivy_ast_call`].
    fn into_tantivy_ast_impl(&self, schema: &Schema, with_validation: bool) -> (r: Result<
        TantivyQueryAst,
        InvalidQuery,
    >)
        requires
            schema.wf(),
        ensures
            agrees(r, compile_impl(*self, schema, with_validation)),
        decreases *self, 0int,
    {
        match self {
            QueryAst::Bool(bool_query) => bool_query.into_tantivy_ast_impl(schema, with_validation),
            QueryAst::Term(term_query) => compute_query(
                term_query.field.as_str(),
                term_query.value.as_str(),
                true,
                schema,
            ),
            QueryAst::Range(range_query) => range_query.into_tantivy_ast_impl(schema),
            QueryAst::MatchAll => Ok(TantivyQueryAst::MatchAll),
            QueryAst::MatchNone => Ok(TantivyQueryAst::MatchNone),
            QueryAst::Boost { underlying, boost } => {
                match underlying.into_tantivy_ast_call(schema, with_validation) {
                    Ok(q) => Ok(
                        TantivyQueryAst::Boost {
                            underlying: Box::new(q),
                            boost: *boost,
                        },
                    ),
                    Err(e) => Err(e),
                }
            },
            QueryAst::TermSet(term_set) => term_set.into_tantivy_ast_impl(schema),
            QueryAst::Phrase(phrase_query) => {
                match compute_query(
                    phrase_query.field.as_str(),
                    phrase_query.phrase.as_str(),
                    true,
                    schema,
                ) {
                    Ok(TantivyQueryAst::Phrase { terms, .. }) => Ok(
                        TantivyQueryAst::Phrase { terms, slop: phrase_query.slop },
                    ),
                    Ok(q) => Ok(q),
                    Err(e) => Err(e),
                }
            },
            QueryAst::UserText(_) => Err(InvalidQuery::UserQueryNotParsed),
        }
    }

    /// Compiles the tree under the validation policy: without validation,
    /// a node that fails compiles to a query that matches nothing.
    pub fn into_tantivy_ast_call(&self, schema: &Schema, with_validation: bool) -> (r: Result<
        TantivyQueryAst,
        InvalidQuery,
    >)
        requires
            schema.wf(),
        ensures
            agrees(r, compile(*self, schema, with_validation)),
        decreases *self, 1int,
    {
        let tantivy_ast_res = self.into_tantivy_ast_impl(schema, with_validation);
        if !with_validation && tantivy_ast_res.is_err() {
            return Ok(TantivyQueryAst::MatchNone);
        }
        tantivy_ast_res
    }
}

/// The executable form of a query: compiled under the validation policy,
/// then simplified.
pub open spec fn build_spec(q: QueryAst, schema: &Schema, with_validation: bool) -> Result<
    CompiledQuery,
    QueryError,
> {
    match compile(q, schema, with_validation) {
        Ok(c) => Ok(simplify_query(c)),
        Err(e) => Err(e),
    }
}

impl QueryAst {
    /// Compiles the tree against the schema and simplifies the result.
    pub fn build_tantivy_query(&self, schema: &Schema, with_validation: bool) -> (r: Result<
        TantivyQueryAst,
        InvalidQuery,
    >)
        requires
            schema.wf(),
        ensures
            agrees(r, build_spec(*self, schema, with_validation)),
    {
        match self.into_tantivy_ast_call(schema, with_validation) {
            Ok(q) => Ok(simplify(q)),
            Err(e) => Err(e),
        }
    }
}

/// Without validation, compilation never fails: a node that cannot be
/// compiled matches nothing instead.
pub proof fn lemma_lenient_never_fails(q: QueryAst, schema: &Schema)
    ensures
        compile(q, schema, false) is Ok,
{
}

proof fn lemma_lenient_agrees_list(s: Seq<QueryAst>, schema: &Schema)
    requires
        compile_list(s, schema, true) is Ok,
    ensures
        compile_list(s, schema, false) == compile_list(s, schema, true),
    decreases s, 0int,
{
    if s.len() > 0 {
        lemma_lenient_agrees_list(s.drop_last(), schema);
        lemma_lenient_agrees(s.last(), schema);
    }
}

/// Where compilation with validation succeeds, compilation without it gives
/// the same query: the lenient mode only differs on nodes that fail.
pub proof fn lemma_lenient_agrees(q: QueryAst, schema: &Schema)
    requires
        compile(q, schema, true) is Ok,
    ensures
        compile(q, schema, false) == compile(q, schema, true),
    decreases q, 1int,
{
    match q {
        QueryAst::Bool(b) => {
            lemma_lenient_agrees_list(b.must@, schema);
            lemma_lenient_agrees_list(b.must_not@, schema);
            lemma_lenient_agrees_list(b.should@, schema);
            lemma_lenient_agrees_list(b.filter@, schema);
        },
        QueryAst::Boost { underlying, .. } => {
            lemma_lenient_agrees(*underlying, schema);
        },
        _ => {},
    }
}

/// The error of the first node, in the order compilation visits them,
/// that fails on its own and that the lenient mode replaces by a query
/// matching nothing.
pub open spec fn first_failure(q: QueryAst, schema: &Schema) -> Option<QueryError>
    decreases q, 1int,
{
    match q {
        QueryAst::Bool(b) => match first_failure_list(b.must@, schema) {
            Some(e) => Some(e),
            None => match first_failure_list(b.must_not@, schema) {
                Some(e) => Some(e),
                None => match first_failure_list(b.should@, schema) {
                    Some(e) => Some(e),
                    None => first_failure_list(b.filter@, schema),
                },
            },
        },
        QueryAst::Boost { underlying, .. } => first_failure(*underlying, schema),
        _ => match compile_impl(q, schema, false) {
            Err(e) => Some(e),
            Ok(_) => None,
        },
    }
}

pub open spec fn first_failure_list(s: Seq<QueryAst>, schema: &Schema) -> Option<QueryError>
    decreases s, 0int,
{
    if s.len() == 0 {
        None
    } else {
        match first_failure_list(s.drop_last(), schema) {
            Some(e) => Some(e),
            None => first_failure(s.last(), schema),
        }
    }
}

proof fn lemma_strict_list(s: Seq<QueryAst>, schema: &Schema)
    ensures
        match first_failure_list(s, schema) {
            Some(e) => compile_list(s, schema, true) == Err::<Seq<CompiledQuery>, QueryError>(e),
            None => compile_list(s, schema, true) is Ok,
        },
    decreases s, 0int,
{
    if s.len() > 0 {
        lemma_strict_list(s.drop_last(), schema);
        lemma_strict_reports_first_failure(s.last(), schema);
    }
}

/// With validation, compilation fails exactly when a node fails that the
/// lenient mode would replace, and with the error of the first such node.
pub proof fn lemma_strict_reports_first_failure(q: QueryAst, schema: &Schema)
    ensures
        match first_failure(q, schema) {
            Some(e) => compile(q, schema, true) == Err::<CompiledQuery, QueryError>(e),
            None => compile(q, schema, true) is Ok,
        },
    decreases q, 1int,
{
    match q {
        QueryAst::Bool(b) => {
            lemma_strict_list(b.must@, schema);
            lemma_strict_list(b.must_not@, schema);
            lemma_strict_list(b.should@, schema);
            lemma_strict_list(b.filter@, schema);
        },
        QueryAst::Boost { underlying, .. } => {
            lemma_strict_reports_first_failure(*underlying, schema);
        },
        _ => {},
    }
}

} // verus!
