use vstd::prelude::*;
use crate::literal::{Bound, JsonLiteral};
use crate::user_input::{parse_spec, text_fields, UserQueryError};

verus! {

/// Whether the bits of a single-precision float encode a NaN: all exponent
/// bits set and a non-zero mantissa.
pub open spec fn is_nan_bits(bits: u32) -> bool {
    bits & 0x7f80_0000u32 == 0x7f80_0000u32 && bits & 0x007f_ffffu32 != 0
}

/// A single-precision float that is not NaN, held as its bits. A NaN factor
/// is refused when the value is built.
#[derive(Debug, Clone, Copy)]
pub struct NotNaNf32 {
    bits: u32,
}

impl NotNaNf32 {
    #[verifier::type_invariant]
    spec fn not_nan(self) -> bool {
        !is_nan_bits(self.bits)
    }

    /// The bits of the float.
    pub closed spec fn value(self) -> u32 {
        self.bits
    }

    /// The float whose bits are `bits`, unless it is a NaN.
    pub fn from_bits(bits: u32) -> (r: Option<NotNaNf32>)
        ensures
            r is None <==> is_nan_bits(bits),
            r matches Some(f) ==> f.value() == bits,
    {
        if bits & 0x7f80_0000u32 == 0x7f80_0000u32 && bits & 0x007f_ffffu32 != 0 {
            None
        } else {
            Some(NotNaNf32 { bits })
        }
    }

    /// The bits of the float.
    pub fn bits(&self) -> (r: u32)
        ensures
            r == self.value(),
            !is_nan_bits(r),
    {
        proof {
            use_type_invariant(self);
        }
        self.bits
    }
}

/// How sibling clauses of free text combine when no connective joins them.
#[derive(PartialEq, Eq, Structural, Clone, Copy, Debug)]
pub enum DefaultOperator {
    And,
    Or,
}

impl Default for DefaultOperator {
    fn default() -> (r: DefaultOperator)
        ensures
            r == DefaultOperator::Or,
    {
        DefaultOperator::Or
    }
}

/// A combination of sub-queries: all of `must` and `filter` match, none of
/// `must_not` does, and `should` ones add to the score.
#[derive(Debug)]
pub struct BoolQuery {
    pub must: Vec<QueryAst>,
    pub must_not: Vec<QueryAst>,
    pub should: Vec<QueryAst>,
    pub filter: Vec<QueryAst>,
}

/// A value matched against one field.
#[derive(Debug)]
pub struct TermQuery {
    pub field: String,
    pub value: String,
}

/// For each field, a set of values any of which may match.
#[derive(Debug)]
pub struct TermSetQuery {
    pub terms_per_field: Vec<(String, Vec<String>)>,
}

/// Tokens that appear next to each other, up to `slop` moves apart.
#[derive(Debug)]
pub struct PhraseQuery {
    pub field: String,
    pub phrase: String,
    pub slop: u32,
}

/// Values of a field between two bounds.
#[derive(Debug)]
pub struct RangeQuery {
    pub field: String,
    pub lower_bound: Bound<JsonLiteral>,
    pub upper_bound: Bound<JsonLiteral>,
}

/// Free text, still to be parsed. `default_fields`, when given, replaces
/// the default search fields of the caller.
#[derive(Debug)]
pub struct UserTextQuery {
    pub user_text: String,
    pub default_fields: Option<Vec<String>>,
    pub default_operator: DefaultOperator,
}

/// A query, as the query language states it.
#[derive(Debug)]
pub enum QueryAst {
    Bool(BoolQuery),
    Term(TermQuery),
    TermSet(TermSetQuery),
    Phrase(PhraseQuery),
    Range(RangeQuery),
    UserText(UserTextQuery),
    MatchAll,
    MatchNone,
    Boost { underlying: Box<QueryAst>, boost: NotNaNf32 },
}

pub enum LiteralModel {
    Number(Seq<char>),
    String(Seq<char>),
    Bool(bool),
}

pub open spec fn literal_view(l: JsonLiteral) -> LiteralModel {
    match l {
        JsonLiteral::Number(t) => LiteralModel::Number(t@),
        JsonLiteral::String(t) => LiteralModel::String(t@),
        JsonLiteral::Bool(b) => LiteralModel::Bool(b),
    }
}

pub open spec fn literal_bound_view(b: Bound<JsonLiteral>) -> Bound<LiteralModel> {
    match b {
        Bound::Included(v) => Bound::Included(literal_view(v)),
        Bound::Excluded(v) => Bound::Excluded(literal_view(v)),
        Bound::Unbounded => Bound::Unbounded,
    }
}

pub open spec fn strings_view(v: Seq<String>) -> Seq<Seq<char>> {
    v.map_values(|s: String| s@)
}

/// The mathematical content of a [`QueryAst`].
pub enum AstModel {
    Bool {
        must: Seq<AstModel>,
        must_not: Seq<AstModel>,
        should: Seq<AstModel>,
        filter: Seq<AstModel>,
    },
    Term { field: Seq<char>, value: Seq<char> },
    TermSet { terms_per_field: Seq<(Seq<char>, Seq<Seq<char>>)> },
    Phrase { field: Seq<char>, phrase: Seq<char>, slop: u32 },
    Range { field: Seq<char>, lower_bound: Bound<LiteralModel>, upper_bound: Bound<LiteralModel> },
    UserText {
        user_text: Seq<char>,
        default_fields: Option<Seq<Seq<char>>>,
        default_operator: DefaultOperator,
    },
    MatchAll,
    MatchNone,
    Boost { underlying: Box<AstModel>, boost: u32 },
}

pub open spec fn ast_list_view(s: Seq<QueryAst>) -> Seq<AstModel>
    decreases s,
{
    if s.len() == 0 {
        Seq::empty()
    } else {
        ast_list_view(s.drop_last()).push(ast_view(s.last()))
    }
}

pub open spec fn ast_view(q: QueryAst) -> AstModel
    decreases q,
{
    match q {
        QueryAst::Bool(b) => AstModel::Bool {
            must: ast_list_view(b.must@),
            must_not: ast_list_view(b.must_not@),
            should: ast_list_view(b.should@),
            filter: ast_list_view(b.filter@),
        },
        QueryAst::Term(t) => AstModel::Term { field: t.field@, value: t.value@ },
        QueryAst::TermSet(t) => AstModel::TermSet {
            terms_per_field: t.terms_per_field@.map_values(
                |p: (String, Vec<String>)| (p.0@, strings_view(p.1@)),
            ),
        },
        QueryAst::Phrase(p) => AstModel::Phrase { field: p.field@, phrase: p.phrase@, slop: p.slop },
        QueryAst::Range(r) => AstModel::Range {
            field: r.field@,
            lower_bound: literal_bound_view(r.lower_bound),
            upper_bound: literal_bound_view(r.upper_bound),
        },
        QueryAst::UserText(u) => AstModel::UserText {
            user_text: u.user_text@,
            default_fields: match u.default_fields {
                Some(f) => Some(strings_view(f@)),
                None => None,
            },
            default_operator: u.default_operator,
        },
        QueryAst::MatchAll => AstModel::MatchAll,
        QueryAst::MatchNone => AstModel::MatchNone,
        QueryAst::Boost { underlying, boost } => AstModel::Boost {
            underlying: Box::new(ast_view(*underlying)),
            boost: boost.value(),
        },
    }
}

impl View for QueryAst {
    type V = AstModel;

    open spec fn view(&self) -> AstModel {
        ast_view(*self)
    }
}

pub proof fn lemma_ast_list_view_len(s: Seq<QueryAst>)
    ensures
        ast_list_view(s).len() == s.len(),
    decreases s.len(),
{
    if s.len() > 0 {
        lemma_ast_list_view_len(s.drop_last());
    }
}

pub proof fn lemma_ast_list_view_push(s: Seq<QueryAst>, q: QueryAst)
    ensures
        ast_list_view(s.push(q)) == ast_list_view(s).push(q@),
{
    assert(s.push(q).drop_last() =~= s);
}

/// The tree with every free-text node replaced by the tree its text stands
/// for.
pub open spec fn rewrite_spec(q: QueryAst, defaults: Seq<Seq<char>>) -> Result<AstModel, UserQueryError>
    decreases q,
{
    match q {
        QueryAst::Bool(b) => match rewrite_list(b.must@, defaults) {
            Err(e) => Err(e),
            Ok(must) => match rewrite_list(b.must_not@, defaults) {
                Err(e) => Err(e),
                Ok(must_not) => match rewrite_list(b.should@, defaults) {
                    Err(e) => Err(e),
                    Ok(should) => match rewrite_list(b.filter@, defaults) {
                        Err(e) => Err(e),
                        Ok(filter) => Ok(AstModel::Bool { must, must_not, should, filter }),
                    },
                },
            },
        },
        QueryAst::UserText(u) => parse_spec(u.user_text@, text_fields(u, defaults), u.default_operator),
        QueryAst::Boost { underlying, boost } => match rewrite_spec(*underlying, defaults) {
            Err(e) => Err(e),
            Ok(inner) => Ok(AstModel::Boost { underlying: Box::new(inner), boost: boost.value() }),
        },
        _ => Ok(ast_view(q)),
    }
}

pub open spec fn rewrite_list(s: Seq<QueryAst>, defaults: Seq<Seq<char>>) -> Result<Seq<AstModel>, UserQueryError>
    decreases s,
{
    if s.len() == 0 {
        Ok(Seq::empty())
    } else {
        match rewrite_list(s.drop_last(), defaults) {
            Err(e) => Err(e),
            Ok(prefix) => match rewrite_spec(s.last(), defaults) {
                Err(e) => Err(e),
                Ok(q) => Ok(prefix.push(q)),
            },
        }
    }
}

proof fn lemma_rewrite_prefix_err(s: Seq<QueryAst>, n: int, defaults: Seq<Seq<char>>)
    requires
        0 <= n <= s.len(),
        rewrite_list(s.subrange(0, n), defaults) is Err,
    ensures
        rewrite_list(s, defaults) == rewrite_list(s.subrange(0, n), defaults),
    decreases s.len() - n,
{
    if n < s.len() {
        assert(s.subrange(0, n + 1).drop_last() =~= s.subrange(0, n));
        lemma_rewrite_prefix_err(s, n + 1, defaults);
    } else {
        assert(s.subrange(0, n) =~= s);
    }
}

/// Rewrites each tree of a list, stopping at the first failure.
pub fn parse_user_query_in_asts(asts: Vec<QueryAst>, default_search_fields: &Vec<String>) -> (r: Result<
    Vec<QueryAst>,
    UserQueryError,
>)
    ensures
        match r {
            Ok(v) => rewrite_list(asts@, strings_view(default_search_fields@)) == Ok::<
                Seq<AstModel>,
                UserQueryError,
            >(ast_list_view(v@)),
            Err(e) => rewrite_list(asts@, strings_view(default_search_fields@)) == Err::<
                Seq<AstModel>,
                UserQueryError,
            >(e),
        },
    decreases asts@, 0int,
{
    let ghost v0 = asts@;
    let ghost defaults = strings_view(default_search_fields@);
    let n = asts.len();
    let mut rest = asts;
    let mut reversed: Vec<QueryAst> = Vec::new();
    while rest.len() > 0
        invariant
            rest@.len() + reversed@.len() == n,
            rest@ == v0.subrange(0, rest@.len() as int),
            n == v0.len(),
            forall|j: int| 0 <= j < reversed@.len() ==> #[trigger] reversed@[j] == v0[n - 1 - j],
        decreases rest@.len(),
    {
        let q = rest.pop().unwrap();
        reversed.push(q);
    }
    let mut out: Vec<QueryAst> = Vec::new();
    let mut i: usize = 0;
    assert(v0.subrange(0, 0) =~= Seq::<QueryAst>::empty());
    assert(ast_list_view(out@) =~= Seq::<AstModel>::empty());
    while i < n
        invariant
            i <= n,
            reversed@.len() == n - i,
            n == v0.len(),
            v0 == asts@,
            defaults == strings_view(default_search_fields@),
            forall|j: int| 0 <= j < reversed@.len() ==> #[trigger] reversed@[j] == v0[n - 1 - j],
            rewrite_list(v0.subrange(0, i as int), defaults) == Ok::<Seq<AstModel>, UserQueryError>(
                ast_list_view(out@),
            ),
        decreases n - i,
    {
        let q = reversed.pop().unwrap();
        proof {
            assert(q == v0[i as int]);
            assert(decreases_to!(v0 => v0[i as int]));
            assert(v0.subrange(0, i + 1).drop_last() =~= v0.subrange(0, i as int));
        }
        match parse_user_query(q, default_search_fields) {
            Ok(p) => {
                let ghost before = out@;
                out.push(p);
                proof {
                    lemma_ast_list_view_push(before, p);
                }
            },
            Err(e) => {
                proof {
                    lemma_rewrite_prefix_err(v0, i + 1, defaults);
                }
                return Err(e);
            },
        }
        i = i + 1;
    }
    assert(v0.subrange(0, n as int) =~= v0);
    Ok(out)
}

/// Parses every free-text node of the tree, with `default_search_fields`
/// for those that declare no default fields of their own.
pub fn parse_user_query(query_ast: QueryAst, default_search_fields: &Vec<String>) -> (r: Result<
    QueryAst,
    UserQueryError,
>)
    ensures
        match r {
            Ok(q) => rewrite_spec(query_ast, strings_view(default_search_fields@)) == Ok::<
                AstModel,
                UserQueryError,
            >(q@),
            Err(e) => rewrite_spec(query_ast, strings_view(default_search_fields@)) == Err::<
                AstModel,
                UserQueryError,
            >(e),
        },
    decreases query_ast, 1int,
{
    match query_ast {
        QueryAst::Bool(b) => {
            let BoolQuery { must, must_not, should, filter } = b;
            let must = match parse_user_query_in_asts(must, default_search_fields) {
                Ok(v) => v,
                Err(e) => {
                    return Err(e);
                },
            };
            let must_not = match parse_user_query_in_asts(must_not, default_search_fields) {
                Ok(v) => v,
                Err(e) => {
                    return Err(e);
                },
            };
            let should = match parse_user_query_in_asts(should, default_search_fields) {
                Ok(v) => v,
                Err(e) => {
                    return Err(e);
                },
            };
            let filter = match parse_user_query_in_asts(filter, default_search_fields) {
                Ok(v) => v,
                Err(e) => {
                    return Err(e);
                },
            };
            Ok(QueryAst::Bool(BoolQuery { must, must_not, should, filter }))
        },
        QueryAst::UserText(user_text_query) => user_text_query.parse_user_query(default_search_fields),
        QueryAst::Boost { underlying, boost } => {
            match parse_user_query(*underlying, default_search_fields) {
                Ok(q) => Ok(QueryAst::Boost { underlying: Box::new(q), boost }),
                Err(e) => Err(e),
            }
        },
        other => Ok(other),
    }
}

} // verus!
