use vstd::prelude::*;
use crate::errors::ValueKind;
use crate::literal::Bound;
use crate::query_ast::NotNaNf32;

verus! {

/// A value in the type of the field it is matched against. `F64` holds the
/// order-preserving integer image of the float; `Date` holds nanoseconds
/// since the Unix epoch; `IpAddr` holds an IPv6 address, IPv4 being mapped.
#[derive(Debug)]
pub enum TypedValue {
    Str(String),
    U64(u64),
    I64(i64),
    F64(u64),
    Bool(bool),
    Date(i64),
    IpAddr(u128),
}

pub enum ValueModel {
    Str(Seq<char>),
    U64(u64),
    I64(i64),
    F64(u64),
    Bool(bool),
    Date(i64),
    IpAddr(u128),
}

impl View for TypedValue {
    type V = ValueModel;

    open spec fn view(&self) -> ValueModel {
        match self {
            TypedValue::Str(s) => ValueModel::Str(s@),
            TypedValue::U64(v) => ValueModel::U64(*v),
            TypedValue::I64(v) => ValueModel::I64(*v),
            TypedValue::F64(v) => ValueModel::F64(*v),
            TypedValue::Bool(v) => ValueModel::Bool(*v),
            TypedValue::Date(v) => ValueModel::Date(*v),
            TypedValue::IpAddr(v) => ValueModel::IpAddr(*v),
        }
    }
}

/// A term of the index: a field, the path inside it when it is a JSON
/// object, and a value.
#[derive(Debug)]
pub struct Term {
    pub field: usize,
    pub json_path: Option<String>,
    pub value: TypedValue,
}

pub struct TermModel {
    pub field: usize,
    pub json_path: Option<Seq<char>>,
    pub value: ValueModel,
}

impl View for Term {
    type V = TermModel;

    open spec fn view(&self) -> TermModel {
        TermModel {
            field: self.field,
            json_path: match self.json_path {
                Some(p) => Some(p@),
                None => None,
            },
            value: self.value@,
        }
    }
}

pub open spec fn bound_view(b: Bound<TypedValue>) -> Bound<ValueModel> {
    match b {
        Bound::Included(v) => Bound::Included(v@),
        Bound::Excluded(v) => Bound::Excluded(v@),
        Bound::Unbounded => Bound::Unbounded,
    }
}

/// A range over the fast column of a field.
#[derive(Debug)]
pub struct TantivyRangeQuery {
    pub field: String,
    pub value_type: ValueKind,
    pub lower_bound: Bound<TypedValue>,
    pub upper_bound: Bound<TypedValue>,
}

#[derive(Debug)]
pub struct TantivyBoolQuery {
    pub must: Vec<TantivyQueryAst>,
    pub must_not: Vec<TantivyQueryAst>,
    pub should: Vec<TantivyQueryAst>,
    pub filter: Vec<TantivyQueryAst>,
}

/// The executable form of a query.
#[derive(Debug)]
pub enum TantivyQueryAst {
    Bool(TantivyBoolQuery),
    MatchAll,
    MatchNone,
    /// Documents holding the term.
    Term(Term),
    /// Documents holding the terms at the given relative positions, up to
    /// `slop` moves apart.
    Phrase { terms: Vec<(usize, Term)>, slop: u32 },
    Range(TantivyRangeQuery),
    /// Documents holding any of the terms.
    TermSet(Vec<Term>),
    Boost { underlying: Box<TantivyQueryAst>, boost: NotNaNf32 },
}

pub enum CompiledQuery {
    Bool {
        must: Seq<CompiledQuery>,
        must_not: Seq<CompiledQuery>,
        should: Seq<CompiledQuery>,
        filter: Seq<CompiledQuery>,
    },
    MatchAll,
    MatchNone,
    Term(TermModel),
    Phrase { terms: Seq<(usize, TermModel)>, slop: u32 },
    Range {
        field: Seq<char>,
        value_type: ValueKind,
        lower_bound: Bound<ValueModel>,
        upper_bound: Bound<ValueModel>,
    },
    TermSet(Seq<TermModel>),
    Boost { underlying: Box<CompiledQuery>, boost: u32 },
}

pub open spec fn view_list(s: Seq<TantivyQueryAst>) -> Seq<CompiledQuery>
    decreases s,
{
    if s.len() == 0 {
        Seq::empty()
    } else {
        view_list(s.drop_last()).push(view_query(s.last()))
    }
}

pub open spec fn view_query(q: TantivyQueryAst) -> CompiledQuery
    decreases q,
{
    match q {
        TantivyQueryAst::Bool(b) => CompiledQuery::Bool {
            must: view_list(b.must@),
            must_not: view_list(b.must_not@),
            should: view_list(b.should@),
            filter: view_list(b.filter@),
        },
        TantivyQueryAst::MatchAll => CompiledQuery::MatchAll,
        TantivyQueryAst::MatchNone => CompiledQuery::MatchNone,
        TantivyQueryAst::Term(t) => CompiledQuery::Term(t@),
        TantivyQueryAst::Phrase { terms, slop } => CompiledQuery::Phrase {
            terms: terms@.map_values(|p: (usize, Term)| (p.0, p.1@)),
            slop,
        },
        TantivyQueryAst::Range(r) => CompiledQuery::Range {
            field: r.field@,
            value_type: r.value_type,
            lower_bound: bound_view(r.lower_bound),
            upper_bound: bound_view(r.upper_bound),
        },
        TantivyQueryAst::TermSet(terms) => CompiledQuery::TermSet(
            terms@.map_values(|t: Term| t@),
        ),
        TantivyQueryAst::Boost { underlying, boost } => CompiledQuery::Boost {
            underlying: Box::new(view_query(*underlying)),
            boost: boost.value(),
        },
    }
}

impl View for TantivyQueryAst {
    type V = CompiledQuery;

    open spec fn view(&self) -> CompiledQuery {
        view_query(*self)
    }
}

pub proof fn lemma_view_list_len(s: Seq<TantivyQueryAst>)
    ensures
        view_list(s).len() == s.len(),
    decreases s.len(),
{
    if s.len() > 0 {
        lemma_view_list_len(s.drop_last());
    }
}

pub proof fn lemma_view_list_index(s: Seq<TantivyQueryAst>, i: int)
    requires
        0 <= i < s.len(),
    ensures
        view_list(s)[i] == s[i]@,
    decreases s.len(),
{
    lemma_view_list_len(s.drop_last());
    if i < s.len() - 1 {
        lemma_view_list_index(s.drop_last(), i);
    }
}

pub proof fn lemma_view_list_push(s: Seq<TantivyQueryAst>, q: TantivyQueryAst)
    ensures
        view_list(s.push(q)) == view_list(s).push(q@),
{
    assert(s.push(q).drop_last() =~= s);
}

/// The leaf terms of a compiled query, in order, each with whether the
/// query needs the positions of its occurrences: phrases do, single terms do
/// not, ranges and term sets report none.
pub open spec fn query_terms(q: CompiledQuery) -> Seq<(TermModel, bool)>
    decreases q,
{
    match q {
        CompiledQuery::Bool { must, must_not, should, filter } => list_terms(must) + list_terms(
            must_not,
        ) + list_terms(should) + list_terms(filter),
        CompiledQuery::Term(t) => seq![(t, false)],
        CompiledQuery::Phrase { terms, .. } => terms.map_values(|p: (usize, TermModel)| (p.1, true)),
        CompiledQuery::Boost { underlying, .. } => query_terms(*underlying),
        _ => Seq::empty(),
    }
}

pub open spec fn list_terms(s: Seq<CompiledQuery>) -> Seq<(TermModel, bool)>
    decreases s,
{
    if s.len() == 0 {
        Seq::empty()
    } else {
        list_terms(s.drop_last()) + query_terms(s.last())
    }
}

pub open spec fn pairs_view(s: Seq<(Term, bool)>) -> Seq<(TermModel, bool)> {
    s.map_values(|p: (Term, bool)| (p.0@, p.1))
}

impl TypedValue {
    pub fn copy(&self) -> (r: TypedValue)
        ensures
            r@ == self@,
    {
        match self {
            TypedValue::Str(s) => TypedValue::Str(s.clone()),
            TypedValue::U64(v) => TypedValue::U64(*v),
            TypedValue::I64(v) => TypedValue::I64(*v),
            TypedValue::F64(v) => TypedValue::F64(*v),
            TypedValue::Bool(v) => TypedValue::Bool(*v),
            TypedValue::Date(v) => TypedValue::Date(*v),
            TypedValue::IpAddr(v) => TypedValue::IpAddr(*v),
        }
    }
}

impl Term {
    pub fn copy(&self) -> (r: Term)
        ensures
            r@ == self@,
    {
        let json_path = match &self.json_path {
            Some(p) => Some(p.clone()),
            None => None,
        };
        Term { field: self.field, json_path, value: self.value.copy() }
    }
}

proof fn lemma_pairs_view_push(s: Seq<(Term, bool)>, p: (Term, bool))
    ensures
        pairs_view(s.push(p)) == pairs_view(s).push((p.0@, p.1)),
{
    assert(pairs_view(s.push(p)) =~= pairs_view(s).push((p.0@, p.1)));
}

fn collect_list_terms(list: &Vec<TantivyQueryAst>, out: &mut Vec<(Term, bool)>)
    ensures
        pairs_view(final(out)@) == pairs_view(old(out)@) + list_terms(view_list(list@)),
    decreases list@, 0int,
{
    let mut i: usize = 0;
    proof {
        assert(list@.subrange(0, 0) =~= Seq::<TantivyQueryAst>::empty());
        assert(pairs_view(out@) =~= pairs_view(old(out)@) + list_terms(view_list(list@.subrange(0, 0))));
    }
    while i < list.len()
        invariant
            i <= list@.len(),
            pairs_view(out@) == pairs_view(old(out)@) + list_terms(view_list(list@.subrange(0, i as int))),
        decreases list@.len() - i,
    {
        let ghost before = out@;
        collect_terms(&list[i], out);
        proof {
            let pre = list@.subrange(0, i as int);
            assert(list@.subrange(0, i + 1) =~= pre.push(list@[i as int]));
            lemma_view_list_push(pre, list@[i as int]);
            lemma_view_list_len(pre);
            assert(view_list(pre.push(list@[i as int])).drop_last() =~= view_list(pre));
            assert(pairs_view(out@) =~= pairs_view(old(out)@) + list_terms(view_list(list@.subrange(0, i + 1))));
        }
        i = i + 1;
    }
    assert(list@.subrange(0, i as int) =~= list@);
}

/// Appends to `out` the leaf terms of `query`, as the execution engine
/// enumerates them.
pub fn collect_terms(query: &TantivyQueryAst, out: &mut Vec<(Term, bool)>)
    ensures
        pairs_view(final(out)@) == pairs_view(old(out)@) + query_terms(query@),
    decreases query, 1int,
{
    match query {
        TantivyQueryAst::Bool(b) => {
            collect_list_terms(&b.must, out);
            collect_list_terms(&b.must_not, out);
            collect_list_terms(&b.should, out);
            collect_list_terms(&b.filter, out);
            assert(pairs_view(out@) =~= pairs_view(old(out)@) + query_terms(query@));
        },
        TantivyQueryAst::Term(t) => {
            let ghost before = out@;
            out.push((t.copy(), false));
            proof {
                lemma_pairs_view_push(before, out@.last());
            }
            assert(pairs_view(out@) =~= pairs_view(old(out)@) + query_terms(query@));
        },
        TantivyQueryAst::Phrase { terms, .. } => {
            let mut i: usize = 0;
            let ghost phrase = query_terms(query@);
            assert(pairs_view(out@) =~= pairs_view(old(out)@) + phrase.subrange(0, 0));
            while i < terms.len()
                invariant
                    i <= terms@.len(),
                    phrase == terms@.map_values(|p: (usize, Term)| (p.1@, true)),
                    pairs_view(out@) == pairs_view(old(out)@) + phrase.subrange(0, i as int),
                decreases terms@.len() - i,
            {
                let ghost before = out@;
                out.push((terms[i].1.copy(), true));
                proof {
                    lemma_pairs_view_push(before, out@.last());
                    assert(pairs_view(out@) =~= pairs_view(old(out)@) + phrase.subrange(0, i + 1));
                }
                i = i + 1;
            }
            assert(phrase.subrange(0, i as int) =~= phrase);
        },
        TantivyQueryAst::Boost { underlying, .. } => {
            collect_terms(underlying, out);
        },
        _ => {
            assert(pairs_view(out@) =~= pairs_view(old(out)@) + query_terms(query@));
        },
    }
}

/// The list without the queries that match nothing.
pub open spec fn without_none(s: Seq<CompiledQuery>) -> Seq<CompiledQuery>
    decreases s.len(),
{
    if s.len() == 0 {
        s
    } else if s.last() is MatchNone {
        without_none(s.drop_last())
    } else {
        without_none(s.drop_last()).push(s.last())
    }
}

pub open spec fn has_none(s: Seq<CompiledQuery>) -> bool {
    exists|i: int| 0 <= i < s.len() && s[i] is MatchNone
}

/// A combination whose only children are required ones, at least one.
pub open spec fn must_only(q: CompiledQuery) -> bool {
    q matches CompiledQuery::Bool { must, must_not, should, filter } && must.len() > 0
        && must_not.len() == 0 && should.len() == 0 && filter.len() == 0
}

/// A combination whose only children are optional ones.
pub open spec fn should_only(q: CompiledQuery) -> bool {
    q matches CompiledQuery::Bool { must, must_not, should, filter } && must.len() == 0
        && must_not.len() == 0 && filter.len() == 0
}

/// Required children, with the children of required-only combinations
/// among them put in their place.
pub open spec fn flatten_must(s: Seq<CompiledQuery>) -> Seq<CompiledQuery>
    decreases s.len(),
{
    if s.len() == 0 {
        s
    } else if must_only(s.last()) {
        flatten_must(s.drop_last()) + s.last()->Bool_must
    } else {
        flatten_must(s.drop_last()).push(s.last())
    }
}

/// Optional children, with the children of optional-only combinations
/// among them put in their place.
pub open spec fn flatten_should(s: Seq<CompiledQuery>) -> Seq<CompiledQuery>
    decreases s.len(),
{
    if s.len() == 0 {
        s
    } else if should_only(s.last()) {
        flatten_should(s.drop_last()) + s.last()->Bool_should
    } else {
        flatten_should(s.drop_last()).push(s.last())
    }
}

/// One pass of simplification over a combination whose children are
/// simplified already: nested required-only and optional-only combinations
/// are flattened into their parent, a required child that matches nothing
/// makes the whole match nothing, optional children that match nothing are
/// dropped, and a combination of a single required or optional child is
/// that child.
pub open spec fn simplify_bool(
    must: Seq<CompiledQuery>,
    must_not: Seq<CompiledQuery>,
    should: Seq<CompiledQuery>,
    filter: Seq<CompiledQuery>,
) -> CompiledQuery {
    let must = flatten_must(must);
    let should = flatten_should(without_none(should));
    if has_none(must) || has_none(filter) {
        CompiledQuery::MatchNone
    } else if must.len() == 1 && must_not.len() == 0 && should.len() == 0 && filter.len() == 0 {
        must[0]
    } else if must.len() == 0 && must_not.len() == 0 && should.len() == 1 && filter.len() == 0 {
        should[0]
    } else {
        CompiledQuery::Bool { must, must_not, should, filter }
    }
}

pub open spec fn simplify_list(s: Seq<CompiledQuery>) -> Seq<CompiledQuery>
    decreases s,
{
    if s.len() == 0 {
        s
    } else {
        simplify_list(s.drop_last()).push(simplify_query(s.last()))
    }
}

/// The simplified form of a compiled query.
pub open spec fn simplify_query(q: CompiledQuery) -> CompiledQuery
    decreases q,
{
    match q {
        CompiledQuery::Bool { must, must_not, should, filter } => simplify_bool(
            simplify_list(must),
            simplify_list(must_not),
            simplify_list(should),
            simplify_list(filter),
        ),
        CompiledQuery::Boost { underlying, boost } => CompiledQuery::Boost {
            underlying: Box::new(simplify_query(*underlying)),
            boost,
        },
        _ => q,
    }
}

fn simplify_vec(list: Vec<TantivyQueryAst>) -> (r: Vec<TantivyQueryAst>)
    ensures
        view_list(r@) == simplify_list(view_list(list@)),
    decreases list@, 0int,
{
    let n = list.len();
    let ghost v0 = list@;
    let mut out: Vec<TantivyQueryAst> = Vec::new();
    let mut v = list;
    let mut rest: Vec<TantivyQueryAst> = Vec::new();
    // Children are taken from the back and put back in order afterwards.
    while v.len() > 0
        invariant
            v@.len() + rest@.len() == n,
            v@ == v0.subrange(0, v@.len() as int),
            n == v0.len(),
            v0 == list@,
            forall|j: int| 0 <= j < rest@.len() ==> (#[trigger] rest@[j])@ == simplify_query(v0[n - 1 - j]@),
        decreases v@.len(),
    {
        let q = v.pop().unwrap();
        assert(q == v0[v@.len() as int]);
        assert(decreases_to!(v0 => v0[v@.len() as int]));
        let s = simplify(q);
        rest.push(s);
    }
    let mut i: usize = 0;
    while i < n
        invariant
            i <= n,
            rest@.len() == n - i,
            n == v0.len(),
            forall|j: int| 0 <= j < rest@.len() ==> (#[trigger] rest@[j])@ == simplify_query(v0[n - 1 - j]@),
            view_list(out@) == simplify_list(view_list(v0.subrange(0, i as int))),
        decreases n - i,
    {
        let q = rest.pop().unwrap();
        let ghost before = out@;
        out.push(q);
        proof {
            let pre = v0.subrange(0, i as int);
            assert(v0.subrange(0, i + 1) =~= pre.push(v0[i as int]));
            lemma_view_list_push(pre, v0[i as int]);
            lemma_view_list_push(before, q);
            lemma_view_list_len(pre);
            assert(view_list(pre.push(v0[i as int])).drop_last() =~= view_list(pre));
        }
        i = i + 1;
    }
    assert(v0.subrange(0, n as int) =~= v0);
    out
}

fn is_match_none(q: &TantivyQueryAst) -> (r: bool)
    ensures
        r == (q@ is MatchNone),
{
    match q {
        TantivyQueryAst::MatchNone => true,
        _ => false,
    }
}

fn has_match_none(v: &Vec<TantivyQueryAst>) -> (r: bool)
    ensures
        r == has_none(view_list(v@)),
{
    let mut i: usize = 0;
    proof {
        lemma_view_list_len(v@);
    }
    while i < v.len()
        invariant
            i <= v@.len(),
            view_list(v@).len() == v@.len(),
            forall|j: int| 0 <= j < i ==> !(view_list(v@)[j] is MatchNone),
        decreases v@.len() - i,
    {
        proof {
            lemma_view_list_index(v@, i as int);
        }
        if is_match_none(&v[i]) {
            return true;
        }
        i = i + 1;
    }
    false
}

fn drop_match_none(v: Vec<TantivyQueryAst>) -> (r: Vec<TantivyQueryAst>)
    ensures
        view_list(r@) == without_none(view_list(v@)),
{
    let n = v.len();
    let ghost v0 = v@;
    let mut v = v;
    let mut rest: Vec<TantivyQueryAst> = Vec::new();
    while v.len() > 0
        invariant
            v@.len() + rest@.len() == n,
            v@ == v0.subrange(0, v@.len() as int),
            n == v0.len(),
            forall|j: int| 0 <= j < rest@.len() ==> #[trigger] rest@[j] == v0[n - 1 - j],
        decreases v@.len(),
    {
        let q = v.pop().unwrap();
        rest.push(q);
    }
    let mut out: Vec<TantivyQueryAst> = Vec::new();
    let mut i: usize = 0;
    while i < n
        invariant
            i <= n,
            rest@.len() == n - i,
            n == v0.len(),
            forall|j: int| 0 <= j < rest@.len() ==> #[trigger] rest@[j] == v0[n - 1 - j],
            view_list(out@) == without_none(view_list(v0.subrange(0, i as int))),
        decreases n - i,
    {
        let q = rest.pop().unwrap();
        proof {
            let pre = v0.subrange(0, i as int);
            assert(v0.subrange(0, i + 1) =~= pre.push(q));
            lemma_view_list_push(pre, q);
            lemma_view_list_len(pre);
            assert(view_list(pre.push(q)).drop_last() =~= view_list(pre));
        }
        if !is_match_none(&q) {
            let ghost before = out@;
            out.push(q);
            proof {
                lemma_view_list_push(before, q);
            }
        }
        i = i + 1;
    }
    assert(v0.subrange(0, n as int) =~= v0);
    out
}

pub proof fn lemma_view_list_concat(a: Seq<TantivyQueryAst>, b: Seq<TantivyQueryAst>)
    ensures
        view_list(a + b) == view_list(a) + view_list(b),
    decreases b.len(),
{
    if b.len() == 0 {
        assert(a + b =~= a);
        assert(view_list(a) + view_list(b) =~= view_list(a));
    } else {
        lemma_view_list_concat(a, b.drop_last());
        assert((a + b).drop_last() =~= a + b.drop_last());
        assert((a + b).last() == b.last());
        assert(view_list(a) + view_list(b) =~= (view_list(a) + view_list(b.drop_last())).push(
            b.last()@,
        ));
    }
}

fn is_must_only(q: &TantivyQueryAst) -> (r: bool)
    ensures
        r == must_only(q@),
{
    match q {
        TantivyQueryAst::Bool(b) => {
            proof {
                lemma_view_list_len(b.must@);
                lemma_view_list_len(b.must_not@);
                lemma_view_list_len(b.should@);
                lemma_view_list_len(b.filter@);
            }
            b.must.len() > 0 && b.must_not.len() == 0 && b.should.len() == 0 && b.filter.len() == 0
        },
        _ => false,
    }
}

fn is_should_only(q: &TantivyQueryAst) -> (r: bool)
    ensures
        r == should_only(q@),
{
    match q {
        TantivyQueryAst::Bool(b) => {
            proof {
                lemma_view_list_len(b.must@);
                lemma_view_list_len(b.must_not@);
                lemma_view_list_len(b.filter@);
            }
            b.must.len() == 0 && b.must_not.len() == 0 && b.filter.len() == 0
        },
        _ => false,
    }
}

/// Puts the children of nested combinations of one kind in their place:
/// required-only ones when `must` is set, else optional-only ones.
fn flatten_vec(v: Vec<TantivyQueryAst>, must: bool) -> (r: Vec<TantivyQueryAst>)
    ensures
        must ==> view_list(r@) == flatten_must(view_list(v@)),
        !must ==> view_list(r@) == flatten_should(view_list(v@)),
{
    let n = v.len();
    let ghost v0 = v@;
    let mut v = v;
    let mut rest: Vec<TantivyQueryAst> = Vec::new();
    while v.len() > 0
        invariant
            v@.len() + rest@.len() == n,
            v@ == v0.subrange(0, v@.len() as int),
            n == v0.len(),
            forall|j: int| 0 <= j < rest@.len() ==> #[trigger] rest@[j] == v0[n - 1 - j],
        decreases v@.len(),
    {
        let q = v.pop().unwrap();
        rest.push(q);
    }
    let mut out: Vec<TantivyQueryAst> = Vec::new();
    let mut i: usize = 0;
    while i < n
        invariant
            i <= n,
            rest@.len() == n - i,
            n == v0.len(),
            forall|j: int| 0 <= j < rest@.len() ==> #[trigger] rest@[j] == v0[n - 1 - j],
            must ==> view_list(out@) == flatten_must(view_list(v0.subrange(0, i as int))),
            !must ==> view_list(out@) == flatten_should(view_list(v0.subrange(0, i as int))),
        decreases n - i,
    {
        let q = rest.pop().unwrap();
        let ghost pre = v0.subrange(0, i as int);
        let ghost before = out@;
        proof {
            assert(v0.subrange(0, i + 1) =~= pre.push(q));
            lemma_view_list_push(pre, q);
            lemma_view_list_len(pre);
            assert(view_list(pre.push(q)).drop_last() =~= view_list(pre));
        }
        let nested = if must {
            is_must_only(&q)
        } else {
            is_should_only(&q)
        };
        if nested {
            match q {
                TantivyQueryAst::Bool(b) => {
                    let mut children = if must {
                        b.must
                    } else {
                        b.should
                    };
                    let ghost moved = children@;
                    out.append(&mut children);
                    proof {
                        lemma_view_list_concat(before, moved);
                    }
                },
                _ => {},
            }
        } else {
            out.push(q);
            proof {
                lemma_view_list_push(before, q);
            }
        }
        i = i + 1;
    }
    assert(v0.subrange(0, n as int) =~= v0);
    out
}

/// Simplifies a compiled query; see [`simplify_query`].
pub fn simplify(q: TantivyQueryAst) -> (r: TantivyQueryAst)
    ensures
        r@ == simplify_query(q@),
    decreases q, 1int,
{
    match q {
        TantivyQueryAst::Bool(b) => {
            let must = flatten_vec(simplify_vec(b.must), true);
            let must_not = simplify_vec(b.must_not);
            let should = flatten_vec(drop_match_none(simplify_vec(b.should)), false);
            let filter = simplify_vec(b.filter);
            if has_match_none(&must) || has_match_none(&filter) {
                return TantivyQueryAst::MatchNone;
            }
            proof {
                lemma_view_list_len(must@);
                lemma_view_list_len(must_not@);
                lemma_view_list_len(should@);
                lemma_view_list_len(filter@);
            }
            if must.len() == 1 && must_not.len() == 0 && should.len() == 0 && filter.len() == 0 {
                let mut must = must;
                proof {
                    lemma_view_list_index(must@, 0);
                }
                return must.pop().unwrap();
            }
            if must.len() == 0 && must_not.len() == 0 && should.len() == 1 && filter.len() == 0 {
                let mut should = should;
                proof {
                    lemma_view_list_index(should@, 0);
                }
                return should.pop().unwrap();
            }
            TantivyQueryAst::Bool(TantivyBoolQuery { must, must_not, should, filter })
        },
        TantivyQueryAst::Boost { underlying, boost } => {
            TantivyQueryAst::Boost { underlying: Box::new(simplify(*underlying)), boost }
        },
        other => other,
    }
}

/// Whether a document matches a compiled query, given which leaves (terms,
/// phrases, ranges, term sets) it matches: a combination needs all of its
/// `must` and `filter` children and none of its `must_not` ones, and, when
/// it has neither `must` nor `filter` children, one of its `should` ones.
pub open spec fn matches(q: CompiledQuery, leaf: spec_fn(CompiledQuery) -> bool) -> bool
    decreases q,
{
    match q {
        CompiledQuery::Bool { must, must_not, should, filter } => {
            &&& all_match(must, leaf)
            &&& all_match(filter, leaf)
            &&& !any_match(must_not, leaf)
            &&& (must.len() == 0 && filter.len() == 0 ==> any_match(should, leaf))
        },
        CompiledQuery::MatchAll => true,
        CompiledQuery::MatchNone => false,
        CompiledQuery::Boost { underlying, .. } => matches(*underlying, leaf),
        _ => leaf(q),
    }
}

pub open spec fn all_match(s: Seq<CompiledQuery>, leaf: spec_fn(CompiledQuery) -> bool) -> bool
    decreases s,
{
    if s.len() == 0 {
        true
    } else {
        all_match(s.drop_last(), leaf) && matches(s.last(), leaf)
    }
}

pub open spec fn any_match(s: Seq<CompiledQuery>, leaf: spec_fn(CompiledQuery) -> bool) -> bool
    decreases s,
{
    if s.len() == 0 {
        false
    } else {
        any_match(s.drop_last(), leaf) || matches(s.last(), leaf)
    }
}

proof fn lemma_simplify_list(s: Seq<CompiledQuery>, leaf: spec_fn(CompiledQuery) -> bool)
    ensures
        simplify_list(s).len() == s.len(),
        all_match(simplify_list(s), leaf) == all_match(s, leaf),
        any_match(simplify_list(s), leaf) == any_match(s, leaf),
    decreases s, 0int,
{
    if s.len() > 0 {
        lemma_simplify_list(s.drop_last(), leaf);
        lemma_simplify_keeps_matches(s.last(), leaf);
        let t = simplify_list(s);
        assert(t.drop_last() =~= simplify_list(s.drop_last()));
    }
}

proof fn lemma_without_none(s: Seq<CompiledQuery>, leaf: spec_fn(CompiledQuery) -> bool)
    ensures
        any_match(without_none(s), leaf) == any_match(s, leaf),
    decreases s.len(),
{
    if s.len() > 0 {
        lemma_without_none(s.drop_last(), leaf);
        if !(s.last() is MatchNone) {
            let t = without_none(s);
            assert(t == without_none(s.drop_last()).push(s.last()));
            assert(t.drop_last() =~= without_none(s.drop_last()));
            assert(t.last() == s.last());
            assert(any_match(t, leaf) == (any_match(without_none(s.drop_last()), leaf) || matches(s.last(), leaf)));
        } else {
            assert(!matches(s.last(), leaf));
        }
    }
}

proof fn lemma_all_match_index(s: Seq<CompiledQuery>, i: int, leaf: spec_fn(CompiledQuery) -> bool)
    requires
        0 <= i < s.len(),
        all_match(s, leaf),
    ensures
        matches(s[i], leaf),
    decreases s.len(),
{
    if i < s.len() - 1 {
        lemma_all_match_index(s.drop_last(), i, leaf);
    }
}

proof fn lemma_single(s: Seq<CompiledQuery>, leaf: spec_fn(CompiledQuery) -> bool)
    requires
        s.len() == 1,
    ensures
        all_match(s, leaf) == matches(s[0], leaf),
        any_match(s, leaf) == matches(s[0], leaf),
{
    assert(s.drop_last() =~= Seq::<CompiledQuery>::empty());
    assert(all_match(s.drop_last(), leaf));
    assert(!any_match(s.drop_last(), leaf));
    assert(s.last() == s[0]);
}

proof fn lemma_match_concat(a: Seq<CompiledQuery>, b: Seq<CompiledQuery>, leaf: spec_fn(CompiledQuery) -> bool)
    ensures
        all_match(a + b, leaf) == (all_match(a, leaf) && all_match(b, leaf)),
        any_match(a + b, leaf) == (any_match(a, leaf) || any_match(b, leaf)),
    decreases b.len(),
{
    if b.len() == 0 {
        assert(a + b =~= a);
    } else {
        lemma_match_concat(a, b.drop_last(), leaf);
        assert((a + b).drop_last() =~= a + b.drop_last());
        assert((a + b).last() == b.last());
    }
}

proof fn lemma_flatten_must(s: Seq<CompiledQuery>, leaf: spec_fn(CompiledQuery) -> bool)
    ensures
        all_match(flatten_must(s), leaf) == all_match(s, leaf),
        flatten_must(s).len() >= s.len(),
    decreases s.len(),
{
    if s.len() > 0 {
        lemma_flatten_must(s.drop_last(), leaf);
        if must_only(s.last()) {
            let inner = s.last()->Bool_must;
            lemma_match_concat(flatten_must(s.drop_last()), inner, leaf);
            assert(all_match(Seq::<CompiledQuery>::empty(), leaf));
            assert(!any_match(Seq::<CompiledQuery>::empty(), leaf));
            assert(s.last()->Bool_filter =~= Seq::<CompiledQuery>::empty());
            assert(s.last()->Bool_must_not =~= Seq::<CompiledQuery>::empty());
            assert(matches(s.last(), leaf) == all_match(inner, leaf));
        } else {
            let t = flatten_must(s);
            assert(t.drop_last() =~= flatten_must(s.drop_last()));
            assert(t.last() == s.last());
            assert(all_match(t, leaf) == (all_match(t.drop_last(), leaf) && matches(t.last(), leaf)));
        }
    }
}

proof fn lemma_flatten_should(s: Seq<CompiledQuery>, leaf: spec_fn(CompiledQuery) -> bool)
    ensures
        any_match(flatten_should(s), leaf) == any_match(s, leaf),
    decreases s.len(),
{
    if s.len() > 0 {
        lemma_flatten_should(s.drop_last(), leaf);
        if should_only(s.last()) {
            let inner = s.last()->Bool_should;
            lemma_match_concat(flatten_should(s.drop_last()), inner, leaf);
            assert(all_match(Seq::<CompiledQuery>::empty(), leaf));
            assert(!any_match(Seq::<CompiledQuery>::empty(), leaf));
            assert(s.last()->Bool_filter =~= Seq::<CompiledQuery>::empty());
            assert(s.last()->Bool_must =~= Seq::<CompiledQuery>::empty());
            assert(s.last()->Bool_must_not =~= Seq::<CompiledQuery>::empty());
            assert(matches(s.last(), leaf) == any_match(inner, leaf));
        } else {
            let t = flatten_should(s);
            assert(t.drop_last() =~= flatten_should(s.drop_last()));
            assert(t.last() == s.last());
            assert(any_match(t, leaf) == (any_match(t.drop_last(), leaf) || matches(t.last(), leaf)));
        }
    }
}

/// Simplification does not change which documents a query matches, whatever
/// documents its leaves match.
pub proof fn lemma_simplify_keeps_matches(q: CompiledQuery, leaf: spec_fn(CompiledQuery) -> bool)
    ensures
        matches(simplify_query(q), leaf) == matches(q, leaf),
    decreases q, 1int,
{
    match q {
        CompiledQuery::Bool { must, must_not, should, filter } => {
            lemma_simplify_list(must, leaf);
            lemma_simplify_list(must_not, leaf);
            lemma_simplify_list(should, leaf);
            lemma_simplify_list(filter, leaf);
            let m0 = simplify_list(must);
            let mn = simplify_list(must_not);
            let sh = simplify_list(should);
            let f = simplify_list(filter);
            lemma_without_none(sh, leaf);
            lemma_flatten_must(m0, leaf);
            lemma_flatten_should(without_none(sh), leaf);
            let m = flatten_must(m0);
            let sh2 = flatten_should(without_none(sh));
            if has_none(m) {
                let i = choose|i: int| 0 <= i < m.len() && m[i] is MatchNone;
                if all_match(m, leaf) {
                    lemma_all_match_index(m, i, leaf);
                }
            } else if has_none(f) {
                let i = choose|i: int| 0 <= i < f.len() && f[i] is MatchNone;
                if all_match(f, leaf) {
                    lemma_all_match_index(f, i, leaf);
                }
            } else if m.len() == 1 && mn.len() == 0 && sh2.len() == 0 && f.len() == 0 {
                lemma_single(m, leaf);
                assert(all_match(f, leaf));
                assert(!any_match(mn, leaf));
            } else if m.len() == 0 && mn.len() == 0 && sh2.len() == 1 && f.len() == 0 {
                lemma_single(sh2, leaf);
                assert(all_match(f, leaf));
                assert(all_match(m, leaf));
                assert(!any_match(mn, leaf));
            } else {
                lemma_without_none(sh, leaf);
            }
        },
        CompiledQuery::Boost { underlying, .. } => {
            lemma_simplify_keeps_matches(*underlying, leaf);
        },
        _ => {},
    }
}

} // verus!
