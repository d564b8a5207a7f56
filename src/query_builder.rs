use vstd::prelude::*;
use crate::compile::{build_spec, lemma_lenient_never_fails};
use crate::compiled::{collect_terms, pairs_view, query_terms, CompiledQuery, TantivyQueryAst, Term, TermModel};
use crate::errors::{InvalidQuery, QueryError};
use crate::query_ast::{parse_user_query, rewrite_spec, strings_view, QueryAst, RangeQuery, TermSetQuery, UserTextQuery};
use crate::schema::{find_field_or_hit_dynamic, resolve};
use crate::user_input::{fails_only_on_missing_field, grammar_of, has_bare_literal, law_bare_text_fails_without_default_field, text_fields, UserQueryError};
use crate::schema::{FieldType, Schema};
use crate::warmup::{distinct_names, group_terms, grouped, groups_of, insert_name, names};

verus! {

/// The fields of every range node of the tree.
pub open spec fn range_fields(q: QueryAst) -> Set<Seq<char>>
    decreases q,
{
    match q {
        QueryAst::Bool(b) => range_fields_list(b.must@) + range_fields_list(b.must_not@)
            + range_fields_list(b.should@) + range_fields_list(b.filter@),
        QueryAst::Range(r) => set![r.field@],
        QueryAst::Boost { underlying, .. } => range_fields(*underlying),
        _ => Set::empty(),
    }
}

pub open spec fn range_fields_list(s: Seq<QueryAst>) -> Set<Seq<char>>
    decreases s,
{
    if s.len() == 0 {
        Set::empty()
    } else {
        range_fields_list(s.drop_last()) + range_fields(s.last())
    }
}

/// The fields of every term set node of the tree.
pub open spec fn term_set_fields(q: QueryAst) -> Set<Seq<char>>
    decreases q,
{
    match q {
        QueryAst::Bool(b) => term_set_fields_list(b.must@) + term_set_fields_list(b.must_not@)
            + term_set_fields_list(b.should@) + term_set_fields_list(b.filter@),
        QueryAst::TermSet(t) => Set::new(
            |s: Seq<char>|
                exists|i: int|
                    0 <= i < t.terms_per_field@.len() && (#[trigger] t.terms_per_field@[i]).0@ == s,
        ),
        QueryAst::Boost { underlying, .. } => term_set_fields(*underlying),
        _ => Set::empty(),
    }
}

pub open spec fn term_set_fields_list(s: Seq<QueryAst>) -> Set<Seq<char>>
    decreases s,
{
    if s.len() == 0 {
        Set::empty()
    } else {
        term_set_fields_list(s.drop_last()) + term_set_fields(s.last())
    }
}

fn visit_range_list(list: &Vec<QueryAst>, out: &mut Vec<String>)
    requires
        distinct_names(old(out)@),
    ensures
        distinct_names(final(out)@),
        names(final(out)@) == names(old(out)@) + range_fields_list(list@),
    decreases list@, 0int,
{
    let mut i: usize = 0;
    assert(list@.subrange(0, 0) =~= Seq::<QueryAst>::empty());
    assert(names(out@) =~= names(old(out)@) + range_fields_list(list@.subrange(0, 0)));
    while i < list.len()
        invariant
            i <= list@.len(),
            distinct_names(out@),
            names(out@) == names(old(out)@) + range_fields_list(list@.subrange(0, i as int)),
        decreases list@.len() - i,
    {
        visit_range(&list[i], out);
        assert(list@.subrange(0, i + 1).drop_last() =~= list@.subrange(0, i as int));
        assert(names(out@) =~= names(old(out)@) + range_fields_list(list@.subrange(0, i + 1)));
        i = i + 1;
    }
    assert(list@.subrange(0, i as int) =~= list@);
}

/// Adds to `out` the field of every range node of the tree.
pub fn visit_range(query_ast: &QueryAst, out: &mut Vec<String>)
    requires
        distinct_names(old(out)@),
    ensures
        distinct_names(final(out)@),
        names(final(out)@) == names(old(out)@) + range_fields(*query_ast),
    decreases *query_ast, 1int,
{
    match query_ast {
        QueryAst::Bool(b) => {
            visit_range_list(&b.must, out);
            visit_range_list(&b.must_not, out);
            visit_range_list(&b.should, out);
            visit_range_list(&b.filter, out);
            assert(names(out@) =~= names(old(out)@) + range_fields(*query_ast));
        },
        QueryAst::Range(r) => {
            insert_name(out, &r.field);
            assert(names(out@) =~= names(old(out)@) + range_fields(*query_ast));
        },
        QueryAst::Boost { underlying, .. } => {
            visit_range(underlying, out);
        },
        _ => {
            assert(names(out@) =~= names(old(out)@) + range_fields(*query_ast));
        },
    }
}

fn visit_term_set_list(list: &Vec<QueryAst>, out: &mut Vec<String>)
    requires
        distinct_names(old(out)@),
    ensures
        distinct_names(final(out)@),
        names(final(out)@) == names(old(out)@) + term_set_fields_list(list@),
    decreases list@, 0int,
{
    let mut i: usize = 0;
    assert(list@.subrange(0, 0) =~= Seq::<QueryAst>::empty());
    assert(names(out@) =~= names(old(out)@) + term_set_fields_list(list@.subrange(0, 0)));
    while i < list.len()
        invariant
            i <= list@.len(),
            distinct_names(out@),
            names(out@) == names(old(out)@) + term_set_fields_list(list@.subrange(0, i as int)),
        decreases list@.len() - i,
    {
        visit_term_set(&list[i], out);
        assert(list@.subrange(0, i + 1).drop_last() =~= list@.subrange(0, i as int));
        assert(names(out@) =~= names(old(out)@) + term_set_fields_list(list@.subrange(0, i + 1)));
        i = i + 1;
    }
    assert(list@.subrange(0, i as int) =~= list@);
}

/// Adds to `out` every field of every term set node of the tree.
pub fn visit_term_set(query_ast: &QueryAst, out: &mut Vec<String>)
    requires
        distinct_names(old(out)@),
    ensures
        distinct_names(final(out)@),
        names(final(out)@) == names(old(out)@) + term_set_fields(*query_ast),
    decreases *query_ast, 1int,
{
    match query_ast {
        QueryAst::Bool(b) => {
            visit_term_set_list(&b.must, out);
            visit_term_set_list(&b.must_not, out);
            visit_term_set_list(&b.should, out);
            visit_term_set_list(&b.filter, out);
            assert(names(out@) =~= names(old(out)@) + term_set_fields(*query_ast));
        },
        QueryAst::TermSet(t) => {
            let per_field = &t.terms_per_field;
            let mut i: usize = 0;
            while i < per_field.len()
                invariant
                    i <= per_field@.len(),
                    distinct_names(out@),
                    names(out@) == names(old(out)@) + Set::new(
                        |s: Seq<char>|
                            exists|k: int| 0 <= k < i && (#[trigger] per_field@[k]).0@ == s,
                    ),
                decreases per_field@.len() - i,
            {
                let ghost before = out@;
                insert_name(out, &per_field[i].0);
                proof {
                    assert(names(out@) =~= names(old(out)@) + Set::new(
                        |s: Seq<char>|
                            exists|k: int| 0 <= k < i + 1 && (#[trigger] per_field@[k]).0@ == s,
                    ));
                }
                i = i + 1;
            }
            assert(names(out@) =~= names(old(out)@) + term_set_fields(*query_ast));
        },
        QueryAst::Boost { underlying, .. } => {
            visit_term_set(underlying, out);
        },
        _ => {
            assert(names(out@) =~= names(old(out)@) + term_set_fields(*query_ast));
        },
    }
}

/// The fields of the range nodes of the tree, each once.
pub fn range_query_fields(query_ast: &QueryAst) -> (r: Vec<String>)
    ensures
        distinct_names(r@),
        names(r@) == range_fields(*query_ast),
{
    let mut out: Vec<String> = Vec::new();
    assert(names(out@) =~= Set::empty());
    visit_range(query_ast, &mut out);
    assert(names(out@) =~= range_fields(*query_ast));
    out
}

/// The fields of the term set nodes of the tree, each once.
pub fn extract_term_set_query_fields(query_ast: &QueryAst) -> (r: Vec<String>)
    ensures
        distinct_names(r@),
        names(r@) == term_set_fields(*query_ast),
{
    let mut out: Vec<String> = Vec::new();
    assert(names(out@) =~= Set::empty());
    visit_term_set(query_ast, &mut out);
    assert(names(out@) =~= term_set_fields(*query_ast));
    out
}

/// The pseudo-field that orders hits by relevance.
pub const SCORE_FIELD_NAME: &'static str = "_score";

/// Why a request cannot be turned into an executable query.
#[derive(Debug)]
pub enum QueryParserError {
    InvalidQuery(InvalidQuery),
    /// The sort field is not in the schema.
    UnknownSortField { field_name: String },
    /// The sort field is a text field, which cannot be sorted on.
    SortOnTextField { field_name: String },
    /// The sort field is not a fast field.
    SortOnNonFastField { field_name: String },
    /// A field scored by relevance stores no field norms.
    MissingFieldNorms { field_name: String },
    /// Free text of the tree cannot be parsed.
    UserQuery(UserQueryError),
}

/// What is wrong with sorting by `field_name`, if anything.
pub open spec fn sort_field_error(field_name: Seq<char>, schema: &Schema) -> Option<SortError> {
    if field_name == SCORE_FIELD_NAME@ {
        None
    } else {
        match schema.lookup(field_name) {
            None => Some(SortError::Unknown),
            Some(f) => if schema.fields@[f].field_type is Str {
                Some(SortError::Text)
            } else if !schema.fields@[f].fast {
                Some(SortError::NotFast)
            } else {
                None
            },
        }
    }
}

pub enum SortError {
    Unknown,
    Text,
    NotFast,
}

pub open spec fn sort_error_matches(e: QueryParserError, kind: SortError, field_name: Seq<char>) -> bool {
    match kind {
        SortError::Unknown => e matches QueryParserError::UnknownSortField { field_name: n } && n@
            == field_name,
        SortError::Text => e matches QueryParserError::SortOnTextField { field_name: n } && n@
            == field_name,
        SortError::NotFast => e matches QueryParserError::SortOnNonFastField { field_name: n } && n@
            == field_name,
    }
}

fn str_eq(a: &str, b: &str) -> (r: bool)
    ensures
        r == (a@ == b@),
{
    a.to_string() == b.to_string()
}

/// Checks that hits can be sorted by `field_name`: the relevance score, or a
/// fast field that is not a text field.
pub fn validate_sort_by_field(field_name: &str, schema: &Schema) -> (r: Result<(), QueryParserError>)
    requires
        schema.wf(),
    ensures
        match (r, sort_field_error(field_name@, schema)) {
            (Ok(_), None) => true,
            (Err(e), Some(kind)) => sort_error_matches(e, kind, field_name@),
            _ => false,
        },
{
    if str_eq(field_name, SCORE_FIELD_NAME) {
        return Ok(());
    }
    let sort_by_field = match schema.get_field(field_name) {
        Some(f) => f,
        None => {
            return Err(QueryParserError::UnknownSortField { field_name: field_name.to_string() });
        },
    };
    let sort_by_field_entry = &schema.fields[sort_by_field];
    if let FieldType::Str(_) = &sort_by_field_entry.field_type {
        return Err(QueryParserError::SortOnTextField { field_name: field_name.to_string() });
    }
    if !sort_by_field_entry.fast {
        return Err(QueryParserError::SortOnNonFastField { field_name: field_name.to_string() });
    }
    Ok(())
}

/// Checks that every field scored by relevance stores field norms; the first
/// one that does not is reported.
pub fn validate_sort_by_score(schema: &Schema, search_fields_opt: Option<&Vec<usize>>) -> (r: Result<
    (),
    QueryParserError,
>)
    requires
        search_fields_opt matches Some(fields) ==> forall|i: int|
            0 <= i < fields@.len() ==> (#[trigger] fields@[i]) < schema.fields@.len(),
    ensures
        r is Ok <==> (search_fields_opt matches Some(fields) ==> forall|i: int|
            0 <= i < fields@.len() ==> schema.fields@[#[trigger] fields@[i] as int].fieldnorms),
        r matches Err(e) ==> e matches QueryParserError::MissingFieldNorms { field_name } && exists|
            i: int,
        |
            0 <= i < search_fields_opt->0@.len() && !schema.fields@[search_fields_opt->0@[i] as int].fieldnorms
                && schema.fields@[#[trigger] search_fields_opt->0@[i] as int].name@ == field_name@
                && forall|j: int|
                0 <= j < i ==> schema.fields@[#[trigger] search_fields_opt->0@[j] as int].fieldnorms,
{
    if let Some(fields) = search_fields_opt {
        let mut i: usize = 0;
        while i < fields.len()
            invariant
                search_fields_opt == Some(fields),
                i <= fields@.len(),
                forall|j: int| 0 <= j < fields@.len() ==> (#[trigger] fields@[j]) < schema.fields@.len(),
                forall|j: int| 0 <= j < i ==> schema.fields@[#[trigger] fields@[j] as int].fieldnorms,
            decreases fields@.len() - i,
        {
            let field = fields[i];
            if !schema.fields[field].fieldnorms {
                let field_name = schema.fields[field].name.clone();
                assert(schema.fields@[fields@[i as int] as int].name@ == field_name@);
                assert(!schema.fields@[fields@[i as int] as int].fieldnorms);
                return Err(QueryParserError::MissingFieldNorms { field_name });
            }
            i = i + 1;
        }
    }
    Ok(())
}

/// What must be loaded before a query runs: the fast columns of the range
/// fields, the term dictionaries and postings of the term set fields, and
/// the terms of the compiled query, by field, with whether their positions
/// are needed.
#[derive(Debug)]
pub struct WarmupInfo {
    pub term_dict_field_names: Vec<String>,
    pub posting_field_names: Vec<String>,
    pub fast_field_names: Vec<String>,
    pub terms_grouped_by_field: Vec<(usize, Vec<(Term, bool)>)>,
}

/// The plan for the compiled query `q` of the tree `ast`.
pub open spec fn plans(w: WarmupInfo, ast: QueryAst, q: CompiledQuery) -> bool {
    &&& distinct_names(w.fast_field_names@)
    &&& names(w.fast_field_names@) == range_fields(ast)
    &&& distinct_names(w.term_dict_field_names@)
    &&& names(w.term_dict_field_names@) == term_set_fields(ast)
    &&& w.posting_field_names@ == w.term_dict_field_names@
    &&& groups_of(w.terms_grouped_by_field@, query_terms(q))
}

/// What [`plan_query`] returns: the executable query and its plan, or the
/// first failure among the sort field check and compilation.
pub open spec fn plan_query_ok(
    r: Result<(TantivyQueryAst, WarmupInfo), QueryParserError>,
    query_ast: QueryAst,
    schema: &Schema,
    sort_by_field: Option<&str>,
    with_validation: bool,
) -> bool {
    let sort_error = match sort_by_field {
        Some(f) => sort_field_error(f@, schema),
        None => None,
    };
    match sort_error {
        Some(kind) => r matches Err(e) && sort_error_matches(e, kind, sort_by_field->0@),
        None => match build_spec(query_ast, schema, with_validation) {
            Ok(c) => r matches Ok((q, w)) && q@ == c && plans(w, query_ast, c),
            Err(f) => r matches Err(QueryParserError::InvalidQuery(e)) && e@ == f,
        },
    }
}

/// Checks the sort field, compiles a parsed tree against the schema and
/// plans what must be loaded to run it.
pub fn plan_query(
    query_ast: &QueryAst,
    schema: &Schema,
    sort_by_field: Option<&str>,
    with_validation: bool,
) -> (r: Result<(TantivyQueryAst, WarmupInfo), QueryParserError>)
    requires
        schema.wf(),
    ensures
        plan_query_ok(r, *query_ast, schema, sort_by_field, with_validation),
{
    let fast_field_names = range_query_fields(query_ast);
    if let Some(sort_by_field) = sort_by_field {
        match validate_sort_by_field(sort_by_field, schema) {
            Ok(()) => {},
            Err(e) => {
                return Err(e);
            },
        }
    }
    let query = match query_ast.build_tantivy_query(schema, with_validation) {
        Ok(q) => q,
        Err(e) => {
            return Err(QueryParserError::InvalidQuery(e));
        },
    };
    let term_set_query_fields = extract_term_set_query_fields(query_ast);
    let mut occurrences: Vec<(Term, bool)> = Vec::new();
    collect_terms(&query, &mut occurrences);
    assert(pairs_view(occurrences@) =~= query_terms(query@));
    let terms_grouped_by_field = group_terms(occurrences);
    let posting_field_names = copy_names(&term_set_query_fields);
    let warmup_info = WarmupInfo {
        term_dict_field_names: term_set_query_fields,
        posting_field_names,
        fast_field_names,
        terms_grouped_by_field,
    };
    Ok((query, warmup_info))
}

fn copy_names(v: &Vec<String>) -> (r: Vec<String>)
    ensures
        r@ == v@,
{
    let mut out: Vec<String> = Vec::new();
    let mut i: usize = 0;
    while i < v.len()
        invariant
            i <= v@.len(),
            out@ == v@.subrange(0, i as int),
        decreases v@.len() - i,
    {
        out.push(v[i].clone());
        assert(out@ =~= v@.subrange(0, i + 1));
        i = i + 1;
    }
    assert(v@.subrange(0, i as int) =~= v@);
    out
}

/// `n` is a node of the tree `q`.
pub open spec fn is_node(n: QueryAst, q: QueryAst) -> bool
    decreases q,
{
    n == q || match q {
        QueryAst::Bool(b) => {
            ||| exists|i: int| 0 <= i < b.must@.len() && is_node(n, #[trigger] b.must@[i])
            ||| exists|i: int| 0 <= i < b.must_not@.len() && is_node(n, #[trigger] b.must_not@[i])
            ||| exists|i: int| 0 <= i < b.should@.len() && is_node(n, #[trigger] b.should@[i])
            ||| exists|i: int| 0 <= i < b.filter@.len() && is_node(n, #[trigger] b.filter@[i])
        },
        QueryAst::Boost { underlying, .. } => is_node(n, *underlying),
        _ => false,
    }
}

proof fn lemma_range_list_member(s: Seq<QueryAst>, i: int)
    requires
        0 <= i < s.len(),
    ensures
        range_fields(s[i]).subset_of(range_fields_list(s)),
        term_set_fields(s[i]).subset_of(term_set_fields_list(s)),
    decreases s.len(),
{
    if i < s.len() - 1 {
        lemma_range_list_member(s.drop_last(), i);
    }
}

proof fn lemma_node_fields(n: QueryAst, q: QueryAst)
    requires
        is_node(n, q),
    ensures
        range_fields(n).subset_of(range_fields(q)),
        term_set_fields(n).subset_of(term_set_fields(q)),
    decreases q,
{
    if n != q {
        match q {
            QueryAst::Bool(b) => {
                if exists|i: int| 0 <= i < b.must@.len() && is_node(n, #[trigger] b.must@[i]) {
                    let i = choose|i: int| 0 <= i < b.must@.len() && is_node(n, #[trigger] b.must@[i]);
                    lemma_node_fields(n, b.must@[i]);
                    lemma_range_list_member(b.must@, i);
                } else if exists|i: int| 0 <= i < b.must_not@.len() && is_node(n, #[trigger] b.must_not@[i]) {
                    let i = choose|i: int| 0 <= i < b.must_not@.len() && is_node(n, #[trigger] b.must_not@[i]);
                    lemma_node_fields(n, b.must_not@[i]);
                    lemma_range_list_member(b.must_not@, i);
                } else if exists|i: int| 0 <= i < b.should@.len() && is_node(n, #[trigger] b.should@[i]) {
                    let i = choose|i: int| 0 <= i < b.should@.len() && is_node(n, #[trigger] b.should@[i]);
                    lemma_node_fields(n, b.should@[i]);
                    lemma_range_list_member(b.should@, i);
                } else {
                    let i = choose|i: int| 0 <= i < b.filter@.len() && is_node(n, #[trigger] b.filter@[i]);
                    lemma_node_fields(n, b.filter@[i]);
                    lemma_range_list_member(b.filter@, i);
                }
            },
            QueryAst::Boost { underlying, .. } => {
                lemma_node_fields(n, *underlying);
            },
            _ => {},
        }
    }
}

/// The field of every range node of a tree is planned as a fast field,
/// whether or not that node compiles: without validation and without a sort
/// field, planning succeeds whatever the nodes hold.
pub proof fn law_range_fields_are_fast_fields(
    query_ast: QueryAst,
    schema: &Schema,
    range: RangeQuery,
    r: Result<(TantivyQueryAst, WarmupInfo), QueryParserError>,
)
    requires
        is_node(QueryAst::Range(range), query_ast),
        plan_query_ok(r, query_ast, schema, None, false),
    ensures
        r matches Ok((_, w)) && names(w.fast_field_names@).contains(range.field@),
{
    lemma_lenient_never_fails(query_ast, schema);
    lemma_node_fields(QueryAst::Range(range), query_ast);
    assert(range_fields(QueryAst::Range(range)).contains(range.field@));
}

/// Every field of every term set node of a planned tree is planned for its
/// term dictionary and its postings, and the two sets are equal.
pub proof fn law_term_set_fields_are_warmed(
    query_ast: QueryAst,
    schema: &Schema,
    term_set: TermSetQuery,
    k: int,
    sort_by_field: Option<&str>,
    with_validation: bool,
    q: TantivyQueryAst,
    w: WarmupInfo,
)
    requires
        is_node(QueryAst::TermSet(term_set), query_ast),
        0 <= k < term_set.terms_per_field@.len(),
        plan_query_ok(Ok((q, w)), query_ast, schema, sort_by_field, with_validation),
    ensures
        names(w.term_dict_field_names@).contains(term_set.terms_per_field@[k].0@),
        names(w.posting_field_names@).contains(term_set.terms_per_field@[k].0@),
        names(w.term_dict_field_names@) == names(w.posting_field_names@),
{
    lemma_node_fields(QueryAst::TermSet(term_set), query_ast);
    assert(term_set_fields(QueryAst::TermSet(term_set)).contains(term_set.terms_per_field@[k].0@));
}

/// Planning is deterministic: two runs on the same tree, schema, sort field
/// and mode give the same compiled query and the same plan, or the same
/// error.
pub proof fn law_build_query_deterministic(
    query_ast: QueryAst,
    schema: &Schema,
    sort_by_field: Option<&str>,
    with_validation: bool,
    r1: Result<(TantivyQueryAst, WarmupInfo), QueryParserError>,
    r2: Result<(TantivyQueryAst, WarmupInfo), QueryParserError>,
)
    requires
        plan_query_ok(r1, query_ast, schema, sort_by_field, with_validation),
        plan_query_ok(r2, query_ast, schema, sort_by_field, with_validation),
    ensures
        r1 is Ok <==> r2 is Ok,
        r1 matches Ok((q1, w1)) ==> r2 matches Ok((q2, w2)) && q1@ == q2@
            && names(w1.fast_field_names@) == names(w2.fast_field_names@)
            && names(w1.term_dict_field_names@) == names(w2.term_dict_field_names@)
            && names(w1.posting_field_names@) == names(w2.posting_field_names@)
            && (forall|t: TermModel, b: bool| grouped(w1.terms_grouped_by_field@, t, b)
                <==> grouped(w2.terms_grouped_by_field@, t, b)),
{
}

/// The error of the first default search field that does not resolve.
pub open spec fn default_fields_error(schema: &Schema, fields: Seq<String>) -> Option<QueryError>
    decreases fields.len(),
{
    if fields.len() == 0 {
        None
    } else {
        match default_fields_error(schema, fields.drop_last()) {
            Some(e) => Some(e),
            None => match resolve(schema, fields.last()@) {
                Err(e) => Some(e),
                Ok(_) => None,
            },
        }
    }
}

/// What [`build_query`] returns: a default search field that does not
/// resolve is reported first, then free text that cannot be parsed; else
/// the parsed tree is planned.
pub open spec fn build_query_ok(
    r: Result<(TantivyQueryAst, WarmupInfo), QueryParserError>,
    query_ast: QueryAst,
    schema: &Schema,
    default_search_fields: Seq<String>,
    sort_by_field: Option<&str>,
    with_validation: bool,
) -> bool {
    match default_fields_error(schema, default_search_fields) {
        Some(e) => r matches Err(QueryParserError::InvalidQuery(x)) && x@ == e,
        None => match rewrite_spec(query_ast, strings_view(default_search_fields)) {
            Err(e) => r matches Err(QueryParserError::UserQuery(x)) && x == e,
            Ok(m) => exists|parsed: QueryAst|
                parsed@ == m && plan_query_ok(r, parsed, schema, sort_by_field, with_validation),
        },
    }
}

fn check_default_fields(schema: &Schema, fields: &Vec<String>) -> (r: Result<(), InvalidQuery>)
    requires
        schema.wf(),
    ensures
        match (r, default_fields_error(schema, fields@)) {
            (Ok(_), None) => true,
            (Err(e), Some(f)) => e@ == f,
            _ => false,
        },
{
    let mut i: usize = 0;
    while i < fields.len()
        invariant
            schema.wf(),
            i <= fields@.len(),
            default_fields_error(schema, fields@.subrange(0, i as int)) is None,
        decreases fields@.len() - i,
    {
        let ghost pre = fields@.subrange(0, i as int);
        assert(fields@.subrange(0, i + 1).drop_last() =~= pre);
        match find_field_or_hit_dynamic(fields[i].as_str(), schema) {
            Ok(_) => {},
            Err(e) => {
                proof {
                    lemma_default_fields_prefix(schema, fields@, i + 1);
                }
                return Err(e);
            },
        }
        i = i + 1;
    }
    assert(fields@.subrange(0, i as int) =~= fields@);
    Ok(())
}

proof fn lemma_default_fields_prefix(schema: &Schema, s: Seq<String>, n: int)
    requires
        0 <= n <= s.len(),
        default_fields_error(schema, s.subrange(0, n)) is Some,
    ensures
        default_fields_error(schema, s) == default_fields_error(schema, s.subrange(0, n)),
    decreases s.len() - n,
{
    if n < s.len() {
        assert(s.subrange(0, n + 1).drop_last() =~= s.subrange(0, n));
        lemma_default_fields_prefix(schema, s, n + 1);
    } else {
        assert(s.subrange(0, n) =~= s);
    }
}

/// Checks the default search fields, parses the free text of the tree with
/// them, then checks the sort field, compiles the tree against the schema
/// and plans what must be loaded to run it.
pub fn build_query(
    query_ast: QueryAst,
    schema: &Schema,
    default_search_fields: &Vec<String>,
    sort_by_field: Option<&str>,
    with_validation: bool,
) -> (r: Result<(TantivyQueryAst, WarmupInfo), QueryParserError>)
    requires
        schema.wf(),
    ensures
        build_query_ok(r, query_ast, schema, default_search_fields@, sort_by_field, with_validation),
{
    match check_default_fields(schema, default_search_fields) {
        Ok(()) => {},
        Err(e) => {
            return Err(QueryParserError::InvalidQuery(e));
        },
    }
    let parsed = match parse_user_query(query_ast, default_search_fields) {
        Ok(parsed) => parsed,
        Err(e) => {
            return Err(QueryParserError::UserQuery(e));
        },
    };
    let r = plan_query(&parsed, schema, sort_by_field, with_validation);
    assert(parsed@ == parsed@ && plan_query_ok(r, parsed, schema, sort_by_field, with_validation));
    r
}

/// Free text holding a word or phrase that names no field, with no default
/// search field anywhere, fails with `NoDefaultField` in both validation
/// modes: parsing comes before compilation. A set clause without a field or
/// a boost that is not a number, coming first, would fail otherwise.
pub proof fn law_bare_text_query_fails(
    user_text: UserTextQuery,
    schema: &Schema,
    sort_by_field: Option<&str>,
    with_validation: bool,
    r: Result<(TantivyQueryAst, WarmupInfo), QueryParserError>,
)
    requires
        text_fields(user_text, Seq::empty()).len() == 0,
        grammar_of(user_text.user_text@) matches Some(a) && has_bare_literal(a)
            && fails_only_on_missing_field(a),
        build_query_ok(r, QueryAst::UserText(user_text), schema, Seq::empty(), sort_by_field, with_validation),
    ensures
        r matches Err(QueryParserError::UserQuery(e)) && e == UserQueryError::NoDefaultField,
{
    assert(strings_view(Seq::<String>::empty()) =~= Seq::<Seq<char>>::empty());
    assert(text_fields(user_text, Seq::empty()) =~= Seq::<Seq<char>>::empty());
    law_bare_text_fails_without_default_field(user_text.user_text@, user_text.default_operator);
}

} // verus!
