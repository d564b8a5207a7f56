use vstd::prelude::*;
use crate::compiled::{pairs_view, TermModel, Term, TypedValue};

verus! {

/// The set of names a list holds.
pub open spec fn names(v: Seq<String>) -> Set<Seq<char>> {
    Set::new(|s: Seq<char>| exists|i: int| 0 <= i < v.len() && (#[trigger] v[i])@ == s)
}

/// No name is listed twice.
pub open spec fn distinct_names(v: Seq<String>) -> bool {
    forall|i: int, j: int| 0 <= i < j < v.len() ==> (#[trigger] v[i])@ != (#[trigger] v[j])@
}

/// Adds `name` to a list of distinct names unless it is there.
pub fn insert_name(names_list: &mut Vec<String>, name: &String)
    requires
        distinct_names(old(names_list)@),
    ensures
        distinct_names(final(names_list)@),
        names(final(names_list)@) == names(old(names_list)@).insert(name@),
{
    let mut i: usize = 0;
    while i < names_list.len()
        invariant
            i <= names_list@.len(),
            names_list@ == old(names_list)@,
            distinct_names(old(names_list)@),
            forall|j: int| 0 <= j < i ==> (#[trigger] names_list@[j])@ != name@,
        decreases names_list@.len() - i,
    {
        if names_list[i] == *name {
            assert(names(names_list@) =~= names(old(names_list)@).insert(name@));
            return;
        }
        i = i + 1;
    }
    let ghost before = names_list@;
    names_list.push(name.clone());
    proof {
        assert forall|s: Seq<char>| #[trigger] names(names_list@).contains(s) == names(before).insert(name@).contains(s) by {
            if names(before).contains(s) {
                let k = choose|k: int| 0 <= k < before.len() && (#[trigger] before[k])@ == s;
                assert(names_list@[k] == before[k]);
            }
            if names(names_list@).contains(s) && s != name@ {
                let k = choose|k: int| 0 <= k < names_list@.len() && (#[trigger] names_list@[k])@ == s;
                assert(before[k] == names_list@[k]);
            }
            if s == name@ {
                assert(names_list@[before.len() as int]@ == s);
            }
        };
        assert(names(names_list@) =~= names(before).insert(name@));
    }
}

fn value_eq(a: &TypedValue, b: &TypedValue) -> (r: bool)
    ensures
        r == (a@ == b@),
{
    match (a, b) {
        (TypedValue::Str(x), TypedValue::Str(y)) => *x == *y,
        (TypedValue::U64(x), TypedValue::U64(y)) => *x == *y,
        (TypedValue::I64(x), TypedValue::I64(y)) => *x == *y,
        (TypedValue::F64(x), TypedValue::F64(y)) => *x == *y,
        (TypedValue::Bool(x), TypedValue::Bool(y)) => *x == *y,
        (TypedValue::Date(x), TypedValue::Date(y)) => *x == *y,
        (TypedValue::IpAddr(x), TypedValue::IpAddr(y)) => *x == *y,
        _ => false,
    }
}

/// Whether two terms are the same term of the index.
pub fn term_eq(a: &Term, b: &Term) -> (r: bool)
    ensures
        r == (a@ == b@),
{
    if a.field != b.field {
        return false;
    }
    let same_path = match (&a.json_path, &b.json_path) {
        (Some(x), Some(y)) => *x == *y,
        (None, None) => true,
        _ => false,
    };
    same_path && value_eq(&a.value, &b.value)
}

/// Terms grouped by field: each field once and with at least one term, each
/// term once in the group of its field, with whether its positions are
/// needed.
pub open spec fn groups_wf(g: Seq<(usize, Vec<(Term, bool)>)>) -> bool {
    &&& forall|i: int| 0 <= i < g.len() ==> (#[trigger] g[i]).1@.len() > 0
    &&& forall|i: int, j: int| 0 <= i < j < g.len() ==> (#[trigger] g[i]).0 != (#[trigger] g[j]).0
    &&& forall|i: int, k: int|
        0 <= i < g.len() && 0 <= k < g[i].1@.len() ==> (#[trigger] g[i].1@[k]).0.field == g[i].0
    &&& forall|i: int, k: int, l: int|
        0 <= i < g.len() && 0 <= k < l < g[i].1@.len() ==> (#[trigger] g[i].1@[k]).0@
            != (#[trigger] g[i].1@[l]).0@
}

/// The term `t` stands in the groups with the flag `b`.
pub open spec fn grouped(g: Seq<(usize, Vec<(Term, bool)>)>, t: TermModel, b: bool) -> bool {
    exists|i: int, k: int|
        0 <= i < g.len() && 0 <= k < g[i].1@.len() && (#[trigger] g[i].1@[k]).0@ == t && g[i].1@[k].1
            == b
}

/// The term `t` occurs in `terms`.
pub open spec fn occurs(terms: Seq<(TermModel, bool)>, t: TermModel) -> bool {
    exists|k: int| 0 <= k < terms.len() && (#[trigger] terms[k]).0 == t
}

/// Some occurrence of `t` in `terms` needs positions.
pub open spec fn needs_positions(terms: Seq<(TermModel, bool)>, t: TermModel) -> bool {
    exists|k: int| 0 <= k < terms.len() && (#[trigger] terms[k]).0 == t && terms[k].1
}

/// The groups hold each term that occurs, once, flagged when one of its
/// occurrences needs positions.
pub open spec fn groups_of(g: Seq<(usize, Vec<(Term, bool)>)>, terms: Seq<(TermModel, bool)>) -> bool {
    &&& groups_wf(g)
    &&& forall|t: TermModel, b: bool|
        #[trigger] grouped(g, t, b) <==> (occurs(terms, t) && b == needs_positions(terms, t))
}

/// Records one occurrence of `t`, with whether it needs positions.
fn insert_term(g: &mut Vec<(usize, Vec<(Term, bool)>)>, t: Term, need: bool)
    requires
        groups_wf(old(g)@),
    ensures
        groups_wf(final(g)@),
        forall|u: TermModel, b: bool|
            #[trigger] grouped(final(g)@, u, b) <==> ((u != t@ && grouped(old(g)@, u, b)) || (u == t@
                && b == (grouped(old(g)@, t@, true) || need))),
{
    let ghost g0 = g@;
    let mut i: usize = 0;
    while i < g.len()
        invariant
            g@ == g0,
            i <= g@.len(),
            forall|j: int| 0 <= j < i ==> (#[trigger] g@[j]).0 != t.field,
        ensures
            i < g@.len() ==> g@[i as int].0 == t.field,
            g@ == g0,
            forall|j: int| 0 <= j < i ==> (#[trigger] g@[j]).0 != t.field,
        decreases g@.len() - i,
    {
        if g[i].0 == t.field {
            break;
        }
        i = i + 1;
    }
    if i == g.len() {
        let ghost tv = t@;
        let field = t.field;
        let mut terms: Vec<(Term, bool)> = Vec::new();
        terms.push((t, need));
        g.push((field, terms));
        proof {
            assert(g@[i as int].1@[0].0@ == tv);
            assert forall|u: TermModel, b: bool|
                #[trigger] grouped(g@, u, b) <==> ((u != tv && grouped(g0, u, b)) || (u == tv && b == (
                grouped(g0, tv, true) || need))) by {
                if grouped(g@, u, b) {
                    let (a, k) = choose|a: int, k: int|
                        0 <= a < g@.len() && 0 <= k < g@[a].1@.len() && (#[trigger] g@[a].1@[k]).0@
                            == u && g@[a].1@[k].1 == b;
                    if a < i {
                        assert(g0[a].1@[k] == g@[a].1@[k]);
                        assert(u.field == g0[a].0);
                    }
                }
                if grouped(g0, u, b) {
                    let (a, k) = choose|a: int, k: int|
                        0 <= a < g0.len() && 0 <= k < g0[a].1@.len() && (#[trigger] g0[a].1@[k]).0@
                            == u && g0[a].1@[k].1 == b;
                    assert(g@[a].1@[k] == g0[a].1@[k]);
                }
                if grouped(g0, tv, true) {
                    let (a, k) = choose|a: int, k: int|
                        0 <= a < g0.len() && 0 <= k < g0[a].1@.len() && (#[trigger] g0[a].1@[k]).0@
                            == tv && g0[a].1@[k].1 == true;
                    assert(g0[a].1@[k].0.field == g0[a].0);
                }
                if u == tv && b == (grouped(g0, tv, true) || need) {
                    assert(g@[i as int].1@[0].0@ == u);
                }
            };
            assert forall|a: int, k: int|
                0 <= a < g@.len() && 0 <= k < g@[a].1@.len() implies (#[trigger] g@[a].1@[k]).0.field
                == g@[a].0 by {
                if a < i {
                    assert(g@[a] == g0[a]);
                }
            };
            assert forall|a: int, k: int, l: int|
                0 <= a < g@.len() && 0 <= k < l < g@[a].1@.len() implies (#[trigger] g@[a].1@[k]).0@
                != (#[trigger] g@[a].1@[l]).0@ by {
                assert(g@[a] == g0[a]);
            };
        }
        return;
    }
    let (field, mut terms) = g.remove(i);
    let ghost terms0 = terms@;
    assert(g0[i as int].1@ == terms0);
    let mut k: usize = 0;
    while k < terms.len()
        invariant
            terms@ == terms0,
            k <= terms@.len(),
            forall|j: int| 0 <= j < k ==> (#[trigger] terms@[j]).0@ != t@,
        ensures
            terms@ == terms0,
            k <= terms@.len(),
            k < terms@.len() ==> terms@[k as int].0@ == t@,
            forall|j: int| 0 <= j < k ==> (#[trigger] terms@[j]).0@ != t@,
        decreases terms@.len() - k,
    {
        if term_eq(&terms[k].0, &t) {
            break;
        }
        k = k + 1;
    }
    let ghost tv = t@;
    if k == terms.len() {
        terms.push((t, need));
    } else {
        let (term, flag) = terms.remove(k);
        terms.insert(k, (term, flag || need));
    }
    let ghost terms1 = terms@;
    g.insert(i, (field, terms));
    proof {
        assert(g@ =~= g0.update(i as int, (field, terms)));
        assert(field == t.field);
        assert forall|a: int, k2: int|
            0 <= a < g@.len() && 0 <= k2 < g@[a].1@.len() implies (#[trigger] g@[a].1@[k2]).0.field
            == g@[a].0 by {
            if a == i {
                if k2 < terms0.len() {
                    assert(terms1[k2].0 == terms0[k2].0);
                }
            }
        };
        assert forall|a: int, k2: int, l: int|
            0 <= a < g@.len() && 0 <= k2 < l < g@[a].1@.len() implies (#[trigger] g@[a].1@[k2]).0@
            != (#[trigger] g@[a].1@[l]).0@ by {
            if a == i {
                if l < terms0.len() {
                    assert(terms1[k2].0 == terms0[k2].0);
                    assert(terms1[l].0 == terms0[l].0);
                } else {
                    assert(terms1[k2].0 == terms0[k2].0);
                }
            }
        };
        assert forall|u: TermModel, b: bool|
            #[trigger] grouped(g@, u, b) <==> ((u != tv && grouped(g0, u, b)) || (u == tv && b == (
            grouped(g0, tv, true) || need))) by {
            if grouped(g@, u, b) {
                let (a, k2) = choose|a: int, k2: int|
                    0 <= a < g@.len() && 0 <= k2 < g@[a].1@.len() && (#[trigger] g@[a].1@[k2]).0@ == u
                        && g@[a].1@[k2].1 == b;
                if a != i {
                    assert(g0[a].1@[k2] == g@[a].1@[k2]);
                    assert(u.field == g0[a].0);
                } else if k2 != k {
                    assert(terms1[k2] == terms0[k2]);
                }
            }
            if grouped(g0, u, b) && u != tv {
                let (a, k2) = choose|a: int, k2: int|
                    0 <= a < g0.len() && 0 <= k2 < g0[a].1@.len() && (#[trigger] g0[a].1@[k2]).0@ == u
                        && g0[a].1@[k2].1 == b;
                if a != i {
                    assert(g@[a].1@[k2] == g0[a].1@[k2]);
                } else {
                    assert(terms1[k2] == terms0[k2]);
                    assert(g@[a].1@[k2] == g0[a].1@[k2]);
                }
            }
            if grouped(g0, tv, true) {
                let (a, k2) = choose|a: int, k2: int|
                    0 <= a < g0.len() && 0 <= k2 < g0[a].1@.len() && (#[trigger] g0[a].1@[k2]).0@
                        == tv && g0[a].1@[k2].1 == true;
                assert(g0[a].1@[k2].0.field == g0[a].0);
            }
            if u == tv && b == (grouped(g0, tv, true) || need) {
                assert(g@[i as int].1@[k as int].0@ == u);
            }
        };
    }
}

/// Groups the occurrences of terms by field, each term once, flagged when
/// one of its occurrences needs positions.
pub fn group_terms(occurrences: Vec<(Term, bool)>) -> (g: Vec<(usize, Vec<(Term, bool)>)>)
    ensures
        groups_of(g@, pairs_view(occurrences@)),
{
    let ghost all = pairs_view(occurrences@);
    let mut g: Vec<(usize, Vec<(Term, bool)>)> = Vec::new();
    let mut i: usize = 0;
    let n = occurrences.len();
    let mut occurrences = occurrences;
    proof {
        assert forall|t: TermModel, b: bool| #[trigger] grouped(g@, t, b) <==> (occurs(all.subrange(0, 0), t) && b == needs_positions(all.subrange(0, 0), t)) by {};
    }
    while i < n
        invariant
            i <= n,
            n == all.len(),
            occurrences@.len() == n,
            all == pairs_view(occurrences@),
            groups_wf(g@),
            forall|t: TermModel, b: bool|
                #[trigger] grouped(g@, t, b) <==> (occurs(all.subrange(0, i as int), t) && b
                    == needs_positions(all.subrange(0, i as int), t)),
        decreases n - i,
    {
        let term = occurrences[i].0.copy();
        let need = occurrences[i].1;
        let ghost g0 = g@;
        insert_term(&mut g, term, need);
        proof {
            let pre = all.subrange(0, i as int);
            let cur = all.subrange(0, i + 1);
            assert(cur =~= pre.push((term@, need)));
            assert forall|t: TermModel| #[trigger] occurs(cur, t) == (occurs(pre, t) || t == term@) by {
                if occurs(cur, t) && t != term@ {
                    let k = choose|k: int| 0 <= k < cur.len() && (#[trigger] cur[k]).0 == t;
                    assert(pre[k] == cur[k]);
                }
                if occurs(pre, t) {
                    let k = choose|k: int| 0 <= k < pre.len() && (#[trigger] pre[k]).0 == t;
                    assert(pre[k] == cur[k]);
                }
                if t == term@ {
                    assert(cur[i as int].0 == t);
                }
            };
            assert forall|t: TermModel| #[trigger] needs_positions(cur, t) == (needs_positions(pre, t) || (t == term@ && need)) by {
                if needs_positions(cur, t) && !(t == term@ && need) {
                    let k = choose|k: int| 0 <= k < cur.len() && (#[trigger] cur[k]).0 == t && cur[k].1;
                    assert(pre[k] == cur[k]);
                }
                if needs_positions(pre, t) {
                    let k = choose|k: int| 0 <= k < pre.len() && (#[trigger] pre[k]).0 == t && pre[k].1;
                    assert(pre[k] == cur[k]);
                }
                if t == term@ && need {
                    assert(cur[i as int].0 == t && cur[i as int].1);
                }
            };
            assert forall|t: TermModel, b: bool|
                #[trigger] grouped(g@, t, b) <==> (occurs(cur, t) && b == needs_positions(cur, t)) by {
                assert(occurs(cur, t) == (occurs(pre, t) || t == term@));
                assert(needs_positions(cur, t) == (needs_positions(pre, t) || (t == term@ && need)));
                assert(grouped(g0, t, b) <==> (occurs(pre, t) && b == needs_positions(pre, t)));
                assert(grouped(g0, term@, true) <==> (occurs(pre, term@) && needs_positions(pre, term@)));
                if needs_positions(pre, t) {
                    let k = choose|k: int| 0 <= k < pre.len() && (#[trigger] pre[k]).0 == t && pre[k].1;
                    assert(occurs(pre, t));
                }
            };
        }
        i = i + 1;
    }
    assert(all.subrange(0, n as int) =~= all);
    g
}

} // verus!
