use vstd::prelude::*;
use tantivy::query_grammar as g;
use crate::literal::{Bound, JsonLiteral};
use crate::query_ast::{
    ast_list_view, lemma_ast_list_view_push, AstModel, BoolQuery,
    DefaultOperator, LiteralModel, NotNaNf32, PhraseQuery, QueryAst, RangeQuery, TermQuery,
    TermSetQuery, UserTextQuery, is_nan_bits, strings_view,
};

verus! {

#[verifier::external_type_specification]
#[verifier::external_body]
pub struct ExUserInputAst(tantivy::query_grammar::UserInputAst);

#[verifier::external_type_specification]
#[verifier::external_body]
pub struct ExUserInputLeaf(tantivy::query_grammar::UserInputLeaf);

#[verifier::external_type_specification]
#[verifier::external_body]
pub struct ExUserInputLiteral(tantivy::query_grammar::UserInputLiteral);

#[verifier::external_type_specification]
#[verifier::external_body]
pub struct ExUserInputBound(tantivy::query_grammar::UserInputBound);

#[verifier::external_type_specification]
#[verifier::external_body]
pub struct ExOccur(tantivy::query_grammar::Occur);

/// How a clause takes part in the combination it belongs to.
#[derive(PartialEq, Eq, Structural, Clone, Copy, Debug)]
pub enum ClauseOccur {
    Should,
    Must,
    MustNot,
}

/// The quotes around a literal of free text.
#[derive(PartialEq, Eq, Structural, Clone, Copy, Debug)]
pub enum Delimiter {
    SingleQuotes,
    DoubleQuotes,
    Unquoted,
}

/// A word or quoted text of free text, with the field it targets if any.
#[derive(Debug)]
pub struct FreeTextLiteral {
    pub field_name: Option<String>,
    pub phrase: String,
    pub delimiter: Delimiter,
    pub slop: u32,
    pub prefix: bool,
}

#[derive(Debug)]
pub enum FreeTextBound {
    Inclusive(String),
    Exclusive(String),
    Unbounded,
}

#[derive(Debug)]
pub enum FreeTextLeaf {
    Literal(FreeTextLiteral),
    All,
    Range { field: Option<String>, lower: FreeTextBound, upper: FreeTextBound },
    TermSet { field: Option<String>, elements: Vec<String> },
}

/// Free text as the query grammar reads it. A boost is held as the bits of
/// a single-precision float.
#[derive(Debug)]
pub enum FreeTextAst {
    Clause(Vec<(Option<ClauseOccur>, FreeTextAst)>),
    Leaf(Box<FreeTextLeaf>),
    Boost(Box<FreeTextAst>, u32),
}

pub struct LiteralG {
    pub field_name: Option<Seq<char>>,
    pub phrase: Seq<char>,
    pub delimiter: Delimiter,
    pub slop: u32,
    pub prefix: bool,
}

pub enum BoundG {
    Inclusive(Seq<char>),
    Exclusive(Seq<char>),
    Unbounded,
}

pub enum LeafG {
    Literal(LiteralG),
    All,
    Range { field: Option<Seq<char>>, lower: BoundG, upper: BoundG },
    TermSet { field: Option<Seq<char>>, elements: Seq<Seq<char>> },
}

/// The mathematical content of a [`FreeTextAst`].
pub enum GrammarModel {
    Clause(Seq<(Option<ClauseOccur>, GrammarModel)>),
    Leaf(LeafG),
    Boost(Box<GrammarModel>, u32),
}

pub open spec fn opt_view(o: Option<String>) -> Option<Seq<char>> {
    match o {
        Some(s) => Some(s@),
        None => None,
    }
}

pub open spec fn bound_g(b: FreeTextBound) -> BoundG {
    match b {
        FreeTextBound::Inclusive(s) => BoundG::Inclusive(s@),
        FreeTextBound::Exclusive(s) => BoundG::Exclusive(s@),
        FreeTextBound::Unbounded => BoundG::Unbounded,
    }
}

pub open spec fn literal_g(l: FreeTextLiteral) -> LiteralG {
    LiteralG {
        field_name: opt_view(l.field_name),
        phrase: l.phrase@,
        delimiter: l.delimiter,
        slop: l.slop,
        prefix: l.prefix,
    }
}

pub open spec fn leaf_g(l: FreeTextLeaf) -> LeafG {
    match l {
        FreeTextLeaf::Literal(lit) => LeafG::Literal(literal_g(lit)),
        FreeTextLeaf::All => LeafG::All,
        FreeTextLeaf::Range { field, lower, upper } => LeafG::Range {
            field: opt_view(field),
            lower: bound_g(lower),
            upper: bound_g(upper),
        },
        FreeTextLeaf::TermSet { field, elements } => LeafG::TermSet {
            field: opt_view(field),
            elements: strings_view(elements@),
        },
    }
}

pub open spec fn clause_view(s: Seq<(Option<ClauseOccur>, FreeTextAst)>) -> Seq<(Option<ClauseOccur>, GrammarModel)>
    decreases s,
{
    if s.len() == 0 {
        Seq::empty()
    } else {
        clause_view(s.drop_last()).push((s.last().0, grammar_view(s.last().1)))
    }
}

pub open spec fn grammar_view(a: FreeTextAst) -> GrammarModel
    decreases a,
{
    match a {
        FreeTextAst::Clause(children) => GrammarModel::Clause(clause_view(children@)),
        FreeTextAst::Leaf(leaf) => GrammarModel::Leaf(leaf_g(*leaf)),
        FreeTextAst::Boost(inner, bits) => GrammarModel::Boost(Box::new(grammar_view(*inner)), bits),
    }
}

impl View for FreeTextAst {
    type V = GrammarModel;

    open spec fn view(&self) -> GrammarModel {
        grammar_view(*self)
    }
}

/// How the query grammar reads `text`; `None` when it does not parse.
pub uninterp spec fn grammar_of(text: Seq<char>) -> Option<GrammarModel>;

/// Relies on `tantivy::query_grammar::parse_query` to read free text.
#[verifier::external_body]
fn parse_grammar(text: &str) -> (r: Option<FreeTextAst>)
    ensures
        match r {
            Some(a) => grammar_of(text@) == Some(a@),
            None => grammar_of(text@) is None,
        },
{
    match tantivy::query_grammar::parse_query(text) {
        Ok(ast) => Some(from_grammar(ast)),
        Err(_) => None,
    }
}

/// Moves the grammar's tree into the library's own types, one node for one.
#[verifier::external_body]
fn from_grammar(ast: g::UserInputAst) -> FreeTextAst {
    match ast {
        g::UserInputAst::Clause(c) => FreeTextAst::Clause(
            c.into_iter().map(|(o, a)| (o.map(from_occur), from_grammar(a))).collect(),
        ),
        g::UserInputAst::Boost(a, b) => {
            FreeTextAst::Boost(Box::new(from_grammar(*a)), (b as tantivy::Score).to_bits())
        },
        g::UserInputAst::Leaf(leaf) => FreeTextAst::Leaf(Box::new(from_leaf(*leaf))),
    }
}

/// Moves a leaf of the grammar's tree into the library's own type.
#[verifier::external_body]
fn from_leaf(leaf: g::UserInputLeaf) -> FreeTextLeaf {
    match leaf {
        g::UserInputLeaf::Literal(l) => FreeTextLeaf::Literal(from_literal(l)),
        g::UserInputLeaf::All => FreeTextLeaf::All,
        g::UserInputLeaf::Range { field, lower, upper } => {
            FreeTextLeaf::Range { field, lower: from_bound(lower), upper: from_bound(upper) }
        },
        g::UserInputLeaf::Set { field, elements } => FreeTextLeaf::TermSet { field, elements },
    }
}

/// Moves a literal of the grammar's tree into the library's own type.
#[verifier::external_body]
fn from_literal(l: g::UserInputLiteral) -> FreeTextLiteral {
    let delimiter = match l.delimiter {
        g::Delimiter::SingleQuotes => Delimiter::SingleQuotes,
        g::Delimiter::DoubleQuotes => Delimiter::DoubleQuotes,
        g::Delimiter::None => Delimiter::Unquoted,
    };
    FreeTextLiteral {
        field_name: l.field_name,
        phrase: l.phrase,
        delimiter,
        slop: l.slop,
        prefix: l.prefix,
    }
}

/// Moves a range bound of the grammar's tree into the library's own type.
#[verifier::external_body]
fn from_bound(b: g::UserInputBound) -> FreeTextBound {
    match b {
        g::UserInputBound::Inclusive(s) => FreeTextBound::Inclusive(s),
        g::UserInputBound::Exclusive(s) => FreeTextBound::Exclusive(s),
        g::UserInputBound::Unbounded => FreeTextBound::Unbounded,
    }
}

/// Moves an occurrence of the grammar into the library's own type.
#[verifier::external_body]
fn from_occur(o: g::Occur) -> ClauseOccur {
    match o {
        g::Occur::Should => ClauseOccur::Should,
        g::Occur::Must => ClauseOccur::Must,
        g::Occur::MustNot => ClauseOccur::MustNot,
    }
}

/// Why free text cannot be turned into a query tree.
#[derive(PartialEq, Eq, Structural, Clone, Copy, Debug)]
pub enum UserQueryError {
    /// The text does not follow the query grammar.
    SyntaxError,
    /// A clause names no field and no default search field is declared.
    NoDefaultField,
    /// A set clause names no field.
    UnsupportedSetQuery,
    /// A range clause names no field and several default fields are declared.
    AmbiguousRangeField,
    /// A boost factor is not a number.
    NanBoost,
}

/// A literal in one field: a phrase when quoted or given a slop, else a
/// term.
pub open spec fn literal_query(lit: LiteralG, field: Seq<char>) -> AstModel {
    if lit.delimiter == Delimiter::DoubleQuotes || lit.slop > 0 {
        AstModel::Phrase { field, phrase: lit.phrase, slop: lit.slop }
    } else {
        AstModel::Term { field, value: lit.phrase }
    }
}

pub open spec fn should_of(should: Seq<AstModel>) -> AstModel {
    AstModel::Bool { must: Seq::empty(), must_not: Seq::empty(), should, filter: Seq::empty() }
}

/// A literal targets its own field, else every default field.
pub open spec fn literal_spec(lit: LiteralG, defaults: Seq<Seq<char>>) -> Result<AstModel, UserQueryError> {
    match lit.field_name {
        Some(f) => Ok(literal_query(lit, f)),
        None => if defaults.len() == 0 {
            Err(UserQueryError::NoDefaultField)
        } else if defaults.len() == 1 {
            Ok(literal_query(lit, defaults[0]))
        } else {
            Ok(should_of(defaults.map_values(|f: Seq<char>| literal_query(lit, f))))
        },
    }
}

pub open spec fn bound_literal(b: BoundG) -> Bound<LiteralModel> {
    match b {
        BoundG::Inclusive(s) => Bound::Included(LiteralModel::String(s)),
        BoundG::Exclusive(s) => Bound::Excluded(LiteralModel::String(s)),
        BoundG::Unbounded => Bound::Unbounded,
    }
}

pub open spec fn leaf_spec(leaf: LeafG, defaults: Seq<Seq<char>>) -> Result<AstModel, UserQueryError> {
    match leaf {
        LeafG::Literal(lit) => literal_spec(lit, defaults),
        LeafG::All => Ok(AstModel::MatchAll),
        LeafG::Range { field, lower, upper } => {
            let field = match field {
                Some(f) => Ok(f),
                None => if defaults.len() == 0 {
                    Err(UserQueryError::NoDefaultField)
                } else if defaults.len() == 1 {
                    Ok(defaults[0])
                } else {
                    Err(UserQueryError::AmbiguousRangeField)
                },
            };
            match field {
                Ok(f) => Ok(
                    AstModel::Range {
                        field: f,
                        lower_bound: bound_literal(lower),
                        upper_bound: bound_literal(upper),
                    },
                ),
                Err(e) => Err(e),
            }
        },
        LeafG::TermSet { field, elements } => match field {
            Some(f) => Ok(AstModel::TermSet { terms_per_field: seq![(f, elements)] }),
            None => Err(UserQueryError::UnsupportedSetQuery),
        },
    }
}

/// The occurrence of a clause: its own, else the one the default operator
/// gives.
pub open spec fn occur_of(o: Option<ClauseOccur>, op: DefaultOperator) -> ClauseOccur {
    match o {
        Some(x) => x,
        None => if op == DefaultOperator::And {
            ClauseOccur::Must
        } else {
            ClauseOccur::Should
        },
    }
}

pub open spec fn clause_spec(
    s: Seq<(Option<ClauseOccur>, GrammarModel)>,
    op: DefaultOperator,
    defaults: Seq<Seq<char>>,
) -> Result<(Seq<AstModel>, Seq<AstModel>, Seq<AstModel>), UserQueryError>
    decreases s,
{
    if s.len() == 0 {
        Ok((Seq::empty(), Seq::empty(), Seq::empty()))
    } else {
        match clause_spec(s.drop_last(), op, defaults) {
            Err(e) => Err(e),
            Ok((must, must_not, should)) => match grammar_spec(s.last().1, op, defaults) {
                Err(e) => Err(e),
                Ok(q) => match occur_of(s.last().0, op) {
                    ClauseOccur::Must => Ok((must.push(q), must_not, should)),
                    ClauseOccur::MustNot => Ok((must, must_not.push(q), should)),
                    ClauseOccur::Should => Ok((must, must_not, should.push(q))),
                },
            },
        }
    }
}

/// The query tree that free text read by the grammar stands for.
pub open spec fn grammar_spec(a: GrammarModel, op: DefaultOperator, defaults: Seq<Seq<char>>) -> Result<
    AstModel,
    UserQueryError,
>
    decreases a,
{
    match a {
        GrammarModel::Clause(c) => match clause_spec(c, op, defaults) {
            Err(e) => Err(e),
            Ok((must, must_not, should)) => Ok(
                AstModel::Bool { must, must_not, should, filter: Seq::empty() },
            ),
        },
        GrammarModel::Leaf(leaf) => leaf_spec(leaf, defaults),
        GrammarModel::Boost(inner, bits) => match grammar_spec(*inner, op, defaults) {
            Err(e) => Err(e),
            Ok(q) => if is_nan_bits(bits) {
                Err(UserQueryError::NanBoost)
            } else {
                Ok(AstModel::Boost { underlying: Box::new(q), boost: bits })
            },
        },
    }
}

fn literal_to_ast(lit: &FreeTextLiteral, field: String) -> (r: QueryAst)
    ensures
        r@ == literal_query(literal_g(*lit), field@),
{
    if lit.delimiter == Delimiter::DoubleQuotes || lit.slop > 0 {
        QueryAst::Phrase(PhraseQuery { field, phrase: lit.phrase.clone(), slop: lit.slop })
    } else {
        QueryAst::Term(TermQuery { field, value: lit.phrase.clone() })
    }
}

fn empty_bool(should: Vec<QueryAst>) -> (r: QueryAst)
    ensures
        r@ == should_of(ast_list_view(should@)),
{
    let r = QueryAst::Bool(BoolQuery { must: Vec::new(), must_not: Vec::new(), should, filter: Vec::new() });
    assert(ast_list_view(Seq::<QueryAst>::empty()) =~= Seq::<AstModel>::empty());
    r
}

fn convert_literal(lit: &FreeTextLiteral, default_fields: &Vec<String>) -> (r: Result<QueryAst, UserQueryError>)
    ensures
        match r {
            Ok(q) => literal_spec(literal_g(*lit), strings_view(default_fields@)) == Ok::<AstModel, UserQueryError>(q@),
            Err(e) => literal_spec(literal_g(*lit), strings_view(default_fields@)) == Err::<AstModel, UserQueryError>(e),
        },
{
    let ghost defaults = strings_view(default_fields@);
    match &lit.field_name {
        Some(f) => Ok(literal_to_ast(lit, f.clone())),
        None => {
            let n = default_fields.len();
            if n == 0 {
                return Err(UserQueryError::NoDefaultField);
            }
            if n == 1 {
                assert(defaults[0] == default_fields@[0]@);
                return Ok(literal_to_ast(lit, default_fields[0].clone()));
            }
            let mut should: Vec<QueryAst> = Vec::new();
            let mut i: usize = 0;
            while i < n
                invariant
                    i <= n,
                    n == default_fields@.len(),
                    defaults == strings_view(default_fields@),
                    ast_list_view(should@) == defaults.subrange(0, i as int).map_values(
                        |f: Seq<char>| literal_query(literal_g(*lit), f),
                    ),
                decreases n - i,
            {
                let q = literal_to_ast(lit, default_fields[i].clone());
                let ghost before = should@;
                should.push(q);
                proof {
                    lemma_ast_list_view_push(before, q);
                    assert(defaults[i as int] == default_fields@[i as int]@);
                    assert(defaults.subrange(0, i + 1).map_values(
                        |f: Seq<char>| literal_query(literal_g(*lit), f),
                    ) =~= defaults.subrange(0, i as int).map_values(
                        |f: Seq<char>| literal_query(literal_g(*lit), f),
                    ).push(q@));
                }
                i = i + 1;
            }
            assert(defaults.subrange(0, n as int) =~= defaults);
            Ok(empty_bool(should))
        },
    }
}

fn bound_to_literal(b: FreeTextBound) -> (r: Bound<JsonLiteral>)
    ensures
        crate::query_ast::literal_bound_view(r) == bound_literal(bound_g(b)),
{
    match b {
        FreeTextBound::Inclusive(s) => Bound::Included(JsonLiteral::String(s)),
        FreeTextBound::Exclusive(s) => Bound::Excluded(JsonLiteral::String(s)),
        FreeTextBound::Unbounded => Bound::Unbounded,
    }
}

fn convert_leaf(leaf: FreeTextLeaf, default_fields: &Vec<String>) -> (r: Result<QueryAst, UserQueryError>)
    ensures
        match r {
            Ok(q) => leaf_spec(leaf_g(leaf), strings_view(default_fields@)) == Ok::<AstModel, UserQueryError>(q@),
            Err(e) => leaf_spec(leaf_g(leaf), strings_view(default_fields@)) == Err::<AstModel, UserQueryError>(e),
        },
{
    match leaf {
        FreeTextLeaf::Literal(lit) => convert_literal(&lit, default_fields),
        FreeTextLeaf::All => Ok(QueryAst::MatchAll),
        FreeTextLeaf::Range { field, lower, upper } => {
            let field = match field {
                Some(f) => f,
                None => {
                    if default_fields.len() == 0 {
                        return Err(UserQueryError::NoDefaultField);
                    }
                    if default_fields.len() > 1 {
                        return Err(UserQueryError::AmbiguousRangeField);
                    }
                    assert(strings_view(default_fields@)[0] == default_fields@[0]@);
                    default_fields[0].clone()
                },
            };
            Ok(
                QueryAst::Range(
                    RangeQuery {
                        field,
                        lower_bound: bound_to_literal(lower),
                        upper_bound: bound_to_literal(upper),
                    },
                ),
            )
        },
        FreeTextLeaf::TermSet { field, elements } => match field {
            Some(f) => {
                let ghost el = elements;
                let mut terms_per_field: Vec<(String, Vec<String>)> = Vec::new();
                terms_per_field.push((f, elements));
                let r = QueryAst::TermSet(TermSetQuery { terms_per_field });
                assert(terms_per_field@.map_values(
                    |p: (String, Vec<String>)| (p.0@, strings_view(p.1@)),
                ) =~= seq![(f@, strings_view(el@))]);
                Ok(r)
            },
            None => Err(UserQueryError::UnsupportedSetQuery),
        },
    }
}

fn occur_for(o: Option<ClauseOccur>, op: DefaultOperator) -> (r: ClauseOccur)
    ensures
        r == occur_of(o, op),
{
    match o {
        Some(x) => x,
        None => if op == DefaultOperator::And {
            ClauseOccur::Must
        } else {
            ClauseOccur::Should
        },
    }
}

fn convert_children(
    children: Vec<(Option<ClauseOccur>, FreeTextAst)>,
    op: DefaultOperator,
    default_fields: &Vec<String>,
) -> (r: Result<QueryAst, UserQueryError>)
    ensures
        match r {
            Ok(q) => grammar_spec(GrammarModel::Clause(clause_view(children@)), op, strings_view(default_fields@))
                == Ok::<AstModel, UserQueryError>(q@),
            Err(e) => grammar_spec(GrammarModel::Clause(clause_view(children@)), op, strings_view(default_fields@))
                == Err::<AstModel, UserQueryError>(e),
        },
    decreases children@, 0int,
{
    let ghost v0 = children@;
    let ghost defaults = strings_view(default_fields@);
    let n = children.len();
    let mut rest = children;
    let mut reversed: Vec<(Option<ClauseOccur>, FreeTextAst)> = Vec::new();
    while rest.len() > 0
        invariant
            rest@.len() + reversed@.len() == n,
            rest@ == v0.subrange(0, rest@.len() as int),
            n == v0.len(),
            forall|j: int| 0 <= j < reversed@.len() ==> #[trigger] reversed@[j] == v0[n - 1 - j],
        decreases rest@.len(),
    {
        let c = rest.pop().unwrap();
        reversed.push(c);
    }
    let mut must: Vec<QueryAst> = Vec::new();
    let mut must_not: Vec<QueryAst> = Vec::new();
    let mut should: Vec<QueryAst> = Vec::new();
    let mut i: usize = 0;
    while i < n
        invariant
            i <= n,
            reversed@.len() == n - i,
            n == v0.len(),
            v0 == children@,
            defaults == strings_view(default_fields@),
            forall|j: int| 0 <= j < reversed@.len() ==> #[trigger] reversed@[j] == v0[n - 1 - j],
            clause_spec(clause_view(v0.subrange(0, i as int)), op, defaults) == Ok::<
                (Seq<AstModel>, Seq<AstModel>, Seq<AstModel>),
                UserQueryError,
            >((ast_list_view(must@), ast_list_view(must_not@), ast_list_view(should@))),
        decreases n - i,
    {
        let (occur, child) = reversed.pop().unwrap();
        proof {
            assert(decreases_to!(v0 => v0[i as int]));
            assert((occur, child) == v0[i as int]);
        }
        let ghost pre = v0.subrange(0, i as int);
        proof {
            assert(v0.subrange(0, i + 1) =~= pre.push((occur, child)));
            assert(pre.push((occur, child)).drop_last() =~= pre);
            assert(clause_view(pre.push((occur, child))).drop_last() =~= clause_view(pre));
        }
        let q = match convert_user_input_ast(child, op, default_fields) {
            Ok(q) => q,
            Err(e) => {
                proof {
                    lemma_clause_prefix_err(v0, i + 1, op, defaults);
                }
                return Err(e);
            },
        };
        match occur_for(occur, op) {
            ClauseOccur::Must => {
                let ghost before = must@;
                must.push(q);
                proof { lemma_ast_list_view_push(before, q); }
            },
            ClauseOccur::MustNot => {
                let ghost before = must_not@;
                must_not.push(q);
                proof { lemma_ast_list_view_push(before, q); }
            },
            ClauseOccur::Should => {
                let ghost before = should@;
                should.push(q);
                proof { lemma_ast_list_view_push(before, q); }
            },
        }
        i = i + 1;
    }
    assert(v0.subrange(0, n as int) =~= v0);
    let r = QueryAst::Bool(BoolQuery { must, must_not, should, filter: Vec::new() });
    assert(ast_list_view(Seq::<QueryAst>::empty()) =~= Seq::<AstModel>::empty());
    Ok(r)
}

proof fn lemma_clause_prefix_err(
    s: Seq<(Option<ClauseOccur>, FreeTextAst)>,
    n: int,
    op: DefaultOperator,
    defaults: Seq<Seq<char>>,
)
    requires
        0 <= n <= s.len(),
        clause_spec(clause_view(s.subrange(0, n)), op, defaults) is Err,
    ensures
        clause_spec(clause_view(s), op, defaults) == clause_spec(clause_view(s.subrange(0, n)), op, defaults),
    decreases s.len() - n,
{
    if n < s.len() {
        assert(s.subrange(0, n + 1) =~= s.subrange(0, n).push(s[n]));
        assert(s.subrange(0, n).push(s[n]).drop_last() =~= s.subrange(0, n));
        assert(clause_view(s.subrange(0, n + 1)).drop_last() =~= clause_view(s.subrange(0, n)));
        lemma_clause_prefix_err(s, n + 1, op, defaults);
    } else {
        assert(s.subrange(0, n) =~= s);
    }
}

/// Turns free text read by the grammar into a query tree: clauses without
/// a connective combine by `default_operator`, and clauses without a field
/// target the default fields.
pub fn convert_user_input_ast(
    user_input_ast: FreeTextAst,
    default_operator: DefaultOperator,
    default_search_fields: &Vec<String>,
) -> (r: Result<QueryAst, UserQueryError>)
    ensures
        match r {
            Ok(q) => grammar_spec(user_input_ast@, default_operator, strings_view(default_search_fields@))
                == Ok::<AstModel, UserQueryError>(q@),
            Err(e) => grammar_spec(user_input_ast@, default_operator, strings_view(default_search_fields@))
                == Err::<AstModel, UserQueryError>(e),
        },
    decreases user_input_ast, 1int,
{
    match user_input_ast {
        FreeTextAst::Clause(children) => convert_children(children, default_operator, default_search_fields),
        FreeTextAst::Leaf(leaf) => convert_leaf(*leaf, default_search_fields),
        FreeTextAst::Boost(inner, bits) => {
            let q = match convert_user_input_ast(*inner, default_operator, default_search_fields) {
                Ok(q) => q,
                Err(e) => {
                    return Err(e);
                },
            };
            match NotNaNf32::from_bits(bits) {
                Some(boost) => Ok(QueryAst::Boost { underlying: Box::new(q), boost }),
                None => Err(UserQueryError::NanBoost),
            }
        },
    }
}

/// The query tree that free text stands for.
pub open spec fn parse_spec(text: Seq<char>, defaults: Seq<Seq<char>>, op: DefaultOperator) -> Result<
    AstModel,
    UserQueryError,
> {
    match grammar_of(text) {
        None => Err(UserQueryError::SyntaxError),
        Some(g) => grammar_spec(g, op, defaults),
    }
}

/// Parses free text into a query tree, with `default_search_fields` for
/// clauses that name no field.
pub fn parse_user_query(
    user_text: &str,
    default_search_fields: &Vec<String>,
    default_operator: DefaultOperator,
) -> (r: Result<QueryAst, UserQueryError>)
    ensures
        match r {
            Ok(q) => parse_spec(user_text@, strings_view(default_search_fields@), default_operator)
                == Ok::<AstModel, UserQueryError>(q@),
            Err(e) => parse_spec(user_text@, strings_view(default_search_fields@), default_operator)
                == Err::<AstModel, UserQueryError>(e),
        },
{
    match parse_grammar(user_text) {
        Some(ast) => convert_user_input_ast(ast, default_operator, default_search_fields),
        None => Err(UserQueryError::SyntaxError),
    }
}

/// The fields free text falls back on: its own, else the caller's.
pub open spec fn text_fields(u: UserTextQuery, defaults: Seq<Seq<char>>) -> Seq<Seq<char>> {
    match u.default_fields {
        Some(f) => strings_view(f@),
        None => defaults,
    }
}

impl UserTextQuery {
    /// Parses the text into a query tree, searching its own default fields
    /// if it has some, else `default_search_fields`.
    pub fn parse_user_query(&self, default_search_fields: &Vec<String>) -> (r: Result<QueryAst, UserQueryError>)
        ensures
            match r {
                Ok(q) => parse_spec(self.user_text@, text_fields(*self, strings_view(default_search_fields@)), self.default_operator)
                    == Ok::<AstModel, UserQueryError>(q@),
                Err(e) => parse_spec(self.user_text@, text_fields(*self, strings_view(default_search_fields@)), self.default_operator)
                    == Err::<AstModel, UserQueryError>(e),
            },
    {
        let search_fields = match &self.default_fields {
            Some(fields) => fields,
            None => default_search_fields,
        };
        parse_user_query(self.user_text.as_str(), search_fields, self.default_operator)
    }
}

/// The tree holds a word or phrase that names no field.
pub open spec fn has_bare_literal(a: GrammarModel) -> bool
    decreases a,
{
    match a {
        GrammarModel::Clause(c) => exists|i: int| 0 <= i < c.len() && has_bare_literal(#[trigger] c[i].1),
        GrammarModel::Leaf(LeafG::Literal(lit)) => lit.field_name is None,
        GrammarModel::Leaf(_) => false,
        GrammarModel::Boost(inner, _) => has_bare_literal(*inner),
    }
}

proof fn lemma_clause_fails_from(
    c: Seq<(Option<ClauseOccur>, GrammarModel)>,
    i: int,
    op: DefaultOperator,
    defaults: Seq<Seq<char>>,
)
    requires
        0 <= i < c.len(),
        grammar_spec(c[i].1, op, defaults) is Err,
    ensures
        clause_spec(c, op, defaults) is Err,
    decreases c.len(),
{
    if i < c.len() - 1 {
        lemma_clause_fails_from(c.drop_last(), i, op, defaults);
    }
}

proof fn lemma_bare_literal_fails(a: GrammarModel, op: DefaultOperator)
    requires
        has_bare_literal(a),
    ensures
        grammar_spec(a, op, Seq::empty()) is Err,
    decreases a,
{
    match a {
        GrammarModel::Clause(c) => {
            let i = choose|i: int| 0 <= i < c.len() && has_bare_literal(#[trigger] c[i].1);
            lemma_bare_literal_fails(c[i].1, op);
            lemma_clause_fails_from(c, i, op, Seq::empty());
        },
        GrammarModel::Boost(inner, _) => {
            lemma_bare_literal_fails(*inner, op);
        },
        _ => {},
    }
}

/// Free text that is a single word or phrase naming no field, with no
/// default field declared, fails with `NoDefaultField`. Free text holding
/// such a word anywhere fails too. Parsing comes before compilation, so the
/// validation mode plays no part.
pub proof fn law_bare_text_needs_default_field(text: Seq<char>, op: DefaultOperator)
    requires
        grammar_of(text) matches Some(a) && has_bare_literal(a),
    ensures
        parse_spec(text, Seq::empty(), op) is Err,
        grammar_of(text) matches Some(GrammarModel::Leaf(LeafG::Literal(_))) ==> parse_spec(
            text,
            Seq::empty(),
            op,
        ) == Err::<AstModel, UserQueryError>(UserQueryError::NoDefaultField),
{
    lemma_bare_literal_fails(grammar_of(text)->0, op);
}

/// The tree holds no set clause without a field and no boost that is not a
/// number: with no default field, the only way it can fail is a clause
/// that names no field.
pub open spec fn fails_only_on_missing_field(a: GrammarModel) -> bool
    decreases a,
{
    match a {
        GrammarModel::Clause(c) => forall|i: int|
            0 <= i < c.len() ==> fails_only_on_missing_field(#[trigger] c[i].1),
        GrammarModel::Leaf(LeafG::TermSet { field, .. }) => field is Some,
        GrammarModel::Leaf(_) => true,
        GrammarModel::Boost(inner, bits) => !is_nan_bits(bits) && fails_only_on_missing_field(*inner),
    }
}

proof fn lemma_clause_error_is_missing_field(
    c: Seq<(Option<ClauseOccur>, GrammarModel)>,
    op: DefaultOperator,
)
    requires
        forall|i: int| 0 <= i < c.len() ==> fails_only_on_missing_field(#[trigger] c[i].1),
    ensures
        clause_spec(c, op, Seq::empty()) matches Err(e) ==> e == UserQueryError::NoDefaultField,
    decreases c,
{
    if c.len() > 0 {
        let d = c.drop_last();
        assert forall|i: int| 0 <= i < d.len() implies fails_only_on_missing_field(#[trigger] d[i].1) by {
            assert(d[i] == c[i]);
        }
        lemma_clause_error_is_missing_field(d, op);
        assert(fails_only_on_missing_field(c[c.len() - 1].1));
        lemma_error_is_missing_field(c.last().1, op);
    }
}

proof fn lemma_error_is_missing_field(a: GrammarModel, op: DefaultOperator)
    requires
        fails_only_on_missing_field(a),
    ensures
        grammar_spec(a, op, Seq::empty()) matches Err(e) ==> e == UserQueryError::NoDefaultField,
    decreases a,
{
    match a {
        GrammarModel::Clause(c) => {
            lemma_clause_error_is_missing_field(c, op);
        },
        GrammarModel::Boost(inner, _) => {
            lemma_error_is_missing_field(*inner, op);
        },
        _ => {},
    }
}

/// Free text holding a word or phrase that names no field, with no default
/// field declared, fails with `NoDefaultField`, unless an earlier set clause
/// without a field or a boost that is not a number fails first.
pub proof fn law_bare_text_fails_without_default_field(text: Seq<char>, op: DefaultOperator)
    requires
        grammar_of(text) matches Some(a) && has_bare_literal(a) && fails_only_on_missing_field(a),
    ensures
        parse_spec(text, Seq::empty(), op) == Err::<AstModel, UserQueryError>(
            UserQueryError::NoDefaultField,
        ),
{
    lemma_bare_literal_fails(grammar_of(text)->0, op);
    lemma_error_is_missing_field(grammar_of(text)->0, op);
}

} // verus!
