//! The branch listing.
//!
//! The repository hands the application one record per reference: its
//! short name, whether it is a local branch, and the commit time at its
//! tip. The listing shown to the operator keeps the local branches only,
//! ordered by descending commit time; references whose times tie stay in
//! the order the repository gave them.

use vstd::prelude::*;
use vstd::seq_lib::lemma_multiset_commutative;

verus! {

broadcast use
    vstd::seq_lib::group_filter_ensures,
    vstd::seq_lib::group_to_multiset_ensures,
    vstd::multiset::group_multiset_axioms;


/// One reference of the repository, reduced to what the listing reads.
#[derive(PartialEq, Debug)]
pub struct RefInfo {
    /// Short name of the reference.
    pub name: String,
    /// Whether the reference lives on a remote.
    pub is_remote: bool,
    /// Whether the reference is a branch.
    pub is_branch: bool,
    /// Seconds since the epoch of the last commit on the reference.
    pub commit_time: i64,
}

/// A reference that belongs in the listing: a branch, and not a remote one.
pub open spec fn is_local_branch(r: RefInfo) -> bool {
    r.is_branch && !r.is_remote
}

/// The references that belong in the listing.
pub open spec fn local_p() -> spec_fn(RefInfo) -> bool {
    |b: RefInfo| is_local_branch(b)
}

/// The references whose last commit is at time `t`.
pub open spec fn has_time(t: i64) -> spec_fn(RefInfo) -> bool {
    |b: RefInfo| b.commit_time == t
}

/// The references that belong in the listing and whose last commit is at
/// time `t`.
pub open spec fn local_with_time(t: i64) -> spec_fn(RefInfo) -> bool {
    |b: RefInfo| is_local_branch(b) && b.commit_time == t
}

/// Ordered by non-ascending commit time: for references with distinct
/// times, strictly by descending time.
pub open spec fn sorted_desc(s: Seq<RefInfo>) -> bool {
    forall|i: int, j: int| 0 <= i < j < s.len() ==> s[i].commit_time >= s[j].commit_time
}

proof fn lemma_filter_push(s: Seq<RefInfo>, x: RefInfo, pred: spec_fn(RefInfo) -> bool)
    ensures
        pred(x) ==> s.push(x).filter(pred) == s.filter(pred).push(x),
        !pred(x) ==> s.push(x).filter(pred) == s.filter(pred),
{
    assert(s.push(x).drop_last() =~= s);
    assert(s.push(x).last() == x);
    reveal_with_fuel(Seq::filter, 1);
    assert(s.push(x).filter(pred) == if pred(x) {
        s.filter(pred).push(x)
    } else {
        s.filter(pred)
    });
}

proof fn lemma_filter_none(s: Seq<RefInfo>, pred: spec_fn(RefInfo) -> bool)
    requires
        forall|i: int| 0 <= i < s.len() ==> !pred(s[i]),
    ensures
        s.filter(pred) == Seq::<RefInfo>::empty(),
    decreases s.len(),
{
    reveal_with_fuel(Seq::filter, 1);
    if s.len() == 0 {
        assert(s =~= Seq::<RefInfo>::empty());
        assert(s.filter(pred) =~= Seq::<RefInfo>::empty());
    } else {
        lemma_filter_none(s.drop_last(), pred);
        assert(!pred(s.last()));
    }
}

/// Inserting `x` between the references at least as recent and the
/// strictly older ones keeps the listing sorted, adds `x` to its
/// contents, and appends `x` to the references of its own commit time
/// while leaving every other time's order alone.
proof fn lemma_insert_step(out: Seq<RefInfo>, x: RefInfo, idx: int)
    requires
        0 <= idx <= out.len(),
        sorted_desc(out),
        forall|k: int| 0 <= k < idx ==> out[k].commit_time >= x.commit_time,
        forall|k: int| idx <= k < out.len() ==> out[k].commit_time < x.commit_time,
    ensures
        sorted_desc(out.insert(idx, x)),
        out.insert(idx, x).to_multiset() == out.to_multiset().insert(x),
        forall|t: i64|
            #![auto]
            out.insert(idx, x).filter(has_time(t)) == if x.commit_time == t {
                out.filter(has_time(t)).push(x)
            } else {
                out.filter(has_time(t))
            },
{
    let res = out.insert(idx, x);
    let a = out.subrange(0, idx);
    let b = out.subrange(idx, out.len() as int);
    assert(out =~= a + b);
    assert(res == a.push(x) + b);

    out.insert_ensures(idx, x);
    assert forall|i: int, j: int| 0 <= i < j < res.len() implies res[i].commit_time
        >= res[j].commit_time by {
        if j < idx {
            assert(res[i] == out[i] && res[j] == out[j]);
        } else if i > idx {
            assert(res[i] == out[i - 1] && res[j] == out[j - 1]);
        } else if i < idx && j == idx {
            assert(res[i] == out[i] && res[j] == x);
        } else if i == idx {
            assert(res[i] == x && res[j] == out[j - 1]);
        } else {
            assert(res[i] == out[i] && res[j] == out[j - 1]);
            assert(out[i].commit_time >= x.commit_time);
            assert(out[j - 1].commit_time < x.commit_time);
        }
    }

    lemma_multiset_commutative(a.push(x), b);
    lemma_multiset_commutative(a, b);
    assert(res.to_multiset() =~= out.to_multiset().insert(x));

    assert forall|t: i64|
        #![auto]
        res.filter(has_time(t)) == if x.commit_time == t {
            out.filter(has_time(t)).push(x)
        } else {
            out.filter(has_time(t))
        } by {
        let p = has_time(t);
        Seq::filter_distributes_over_add(a.push(x), b, p);
        Seq::filter_distributes_over_add(a, b, p);
        lemma_filter_push(a, x, p);
        if x.commit_time == t {
            lemma_filter_none(b, p);
            assert(res.filter(p) =~= a.filter(p).push(x));
            assert(out.filter(p) =~= a.filter(p));
        } else {
            assert(res.filter(p) =~= a.filter(p) + b.filter(p));
            assert(out.filter(p) =~= a.filter(p) + b.filter(p));
        }
    }
}

/// The listing built from the repository's references: the local
/// branches, ordered by descending commit time. The order is stable:
/// branches whose commit times tie keep the order `refs` gave them, as
/// the per-time clause states.
pub fn sort_local_branches(refs: Vec<RefInfo>) -> (r: Vec<RefInfo>)
    ensures
        sorted_desc(r@),
        forall|i: int| 0 <= i < r@.len() ==> is_local_branch(r@[i]),
        r@.to_multiset() == refs@.filter(local_p()).to_multiset(),
        forall|t: i64| #![auto] r@.filter(has_time(t)) == refs@.filter(local_with_time(t)),
{
    let mut v = refs;
    let mut out: Vec<RefInfo> = Vec::new();
    let ghost mut done: Seq<RefInfo> = Seq::empty();

    proof {
        assert(refs@ =~= done + v@);
        assert(done.filter(local_p()) =~= Seq::<RefInfo>::empty());
        assert(out@.to_multiset() =~= done.filter(local_p()).to_multiset());
        assert forall|t: i64| #![auto] out@.filter(has_time(t)) == done.filter(
            local_with_time(t),
        ) by {
            assert(out@.filter(has_time(t)) =~= Seq::<RefInfo>::empty());
            assert(done.filter(local_with_time(t)) =~= Seq::<RefInfo>::empty());
        }
    }

    while v.len() > 0
        invariant
            refs@ == done + v@,
            sorted_desc(out@),
            forall|i: int| 0 <= i < out@.len() ==> is_local_branch(out@[i]),
            out@.to_multiset() == done.filter(local_p()).to_multiset(),
            forall|t: i64| #![auto] out@.filter(has_time(t)) == done.filter(local_with_time(t)),
        decreases v.len(),
    {
        let ghost pre_v = v@;
        let x = v.remove(0);
        proof {
            assert(refs@ =~= done.push(x) + v@);
        }

        if x.is_branch && !x.is_remote {
            let mut idx: usize = 0;
            while idx < out.len() && out[idx].commit_time >= x.commit_time
                invariant
                    idx <= out@.len(),
                    forall|k: int| 0 <= k < idx ==> out@[k].commit_time >= x.commit_time,
                decreases out@.len() - idx,
            {
                idx = idx + 1;
            }
            let ghost pre_out = out@;
            proof {
                assert forall|k: int| idx <= k < pre_out.len() implies pre_out[k].commit_time
                    < x.commit_time by {
                    if k > idx {
                        assert(pre_out[idx as int].commit_time >= pre_out[k].commit_time);
                    }
                }
            }
            out.insert(idx, x);
            proof {
                lemma_insert_step(pre_out, x, idx as int);
                lemma_filter_push(done, x, local_p());
                assert(out@.to_multiset() =~= done.push(x).filter(local_p()).to_multiset());
                assert forall|t: i64| #![auto] out@.filter(has_time(t)) == done.push(x).filter(
                    local_with_time(t),
                ) by {
                    lemma_filter_push(done, x, local_with_time(t));
                }
            }
        } else {
            proof {
                lemma_filter_push(done, x, local_p());
                assert forall|t: i64| #![auto] out@.filter(has_time(t)) == done.push(x).filter(
                    local_with_time(t),
                ) by {
                    lemma_filter_push(done, x, local_with_time(t));
                }
            }
        }
        proof {
            done = done.push(x);
        }
    }
    proof {
        assert(done =~= refs@);
    }
    out
}

/// Spells out that `names` is the branch listing derived from `refs`:
/// the witness `s` is the local branches of `refs` in descending commit
/// time order, stable per commit time, and `names` are its names.
pub open spec fn is_branch_listing(refs: Seq<RefInfo>, s: Seq<RefInfo>, names: Seq<String>) -> bool {
    &&& sorted_desc(s)
    &&& s.to_multiset() == refs.filter(local_p()).to_multiset()
    &&& (forall|t: i64| #![auto] s.filter(has_time(t)) == refs.filter(local_with_time(t)))
    &&& names == s.map_values(|b: RefInfo| b.name)
}

/// The names shown to the operator: the local branches of `refs`, by
/// descending commit time, ties kept in the order `refs` gave them.
pub fn local_branch_names(refs: Vec<RefInfo>) -> (names: Vec<String>)
    ensures
        exists|s: Seq<RefInfo>| #[trigger] is_branch_listing(refs@, s, names@),
{
    let sorted = sort_local_branches(refs);
    let ghost s = sorted@;
    let mut rest = sorted;
    let mut names: Vec<String> = Vec::new();
    while rest.len() > 0
        invariant
            names@.len() + rest@.len() == s.len(),
            rest@ == s.subrange(names@.len() as int, s.len() as int),
            names@ == s.subrange(0, names@.len() as int).map_values(|b: RefInfo| b.name),
        decreases rest.len(),
    {
        let ghost k = names@.len() as int;
        let b = rest.remove(0);
        names.push(b.name);
        proof {
            assert(rest@ =~= s.subrange(k + 1, s.len() as int));
            assert(names@ =~= s.subrange(0, k + 1).map_values(|b: RefInfo| b.name));
        }
    }
    proof {
        assert(s.subrange(0, s.len() as int) =~= s);
        assert(names@ =~= s.map_values(|b: RefInfo| b.name));
        assert(is_branch_listing(refs@, s, names@));
    }
    names
}

} // verus!
