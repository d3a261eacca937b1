//! The top-N ranker: of the capacity that each lock identity owns in all, as
//! the index adds it up, the identities that own the most.

use vstd::prelude::*;
use crate::hash::LockIdentity;

verus! {

/// What one lock identity owns in all.
#[derive(Clone, Copy, Debug, PartialEq, Eq)]
pub struct IdentityAggregate {
    pub lock_hash: LockIdentity,
    pub capacity: u64,
}

/// The order of the ranking: the entry at `i` ranks before the entry at `j`
/// when it owns more, or owns as much and stands earlier.
pub open spec fn ranks_before(entries: Seq<IdentityAggregate>, i: int, j: int) -> bool {
    entries[i].capacity > entries[j].capacity || (entries[i].capacity == entries[j].capacity && i
        < j)
}

/// True when `top` holds the positions of the first `n` entries of the
/// ranking, or of all where there are fewer, best first: no position twice,
/// each ranking before the next, and all of them before every position left
/// out.
pub open spec fn is_top(entries: Seq<IdentityAggregate>, n: nat, top: Seq<usize>) -> bool {
    &&& top.len() == if n <= entries.len() {
        n
    } else {
        entries.len()
    }
    &&& forall|k: int| 0 <= k < top.len() ==> (#[trigger] top[k]) < entries.len()
    &&& forall|a: int, b: int|
        0 <= a < b < top.len() ==> ranks_before(entries, top[a] as int, top[b] as int)
    &&& forall|k: int, i: usize|
        0 <= k < top.len() && i < entries.len() && !top.contains(i) ==> #[trigger] ranks_before(
            entries,
            top[k] as int,
            i as int,
        )
}

/// The ranker.
pub struct TopNRanker {}

impl TopNRanker {
    /// The positions in `entries` of the `n` identities that own the most,
    /// best first; of all of them where there are fewer than `n`. Among
    /// identities that own as much, the earlier ranks first.
    pub fn rank(entries: &Vec<IdentityAggregate>, n: usize) -> (top: Vec<usize>)
        ensures
            is_top(entries@, n as nat, top@),
    {
        let mut top: Vec<usize> = Vec::new();
        let mut j: usize = 0;
        while j < entries.len()
            invariant
                j <= entries@.len(),
                top@.len() == if n <= j {
                    n
                } else {
                    j
                },
                forall|k: int| 0 <= k < top@.len() ==> (#[trigger] top@[k]) < j,
                forall|a: int, b: int|
                    0 <= a < b < top@.len() ==> ranks_before(
                        entries@,
                        top@[a] as int,
                        top@[b] as int,
                    ),
                forall|k: int, i: usize|
                    0 <= k < top@.len() && i < j && !top@.contains(i) ==> #[trigger] ranks_before(
                        entries@,
                        top@[k] as int,
                        i as int,
                    ),
                top@.len() < n ==> forall|i: usize| i < j ==> top@.contains(i),
            decreases entries@.len() - j,
        {
            let capacity = entries[j].capacity;
            let mut p: usize = 0;
            while p < top.len() && entries[top[p]].capacity >= capacity
                invariant
                    p <= top@.len(),
                    j < entries@.len(),
                    capacity == entries@[j as int].capacity,
                    forall|k: int| 0 <= k < top@.len() ==> (#[trigger] top@[k]) < j,
                    forall|k: int|
                        0 <= k < p ==> entries@[(#[trigger] top@[k]) as int].capacity >= capacity,
                decreases top@.len() - p,
            {
                p += 1;
            }
            let ghost before = top@;
            proof {
                assert forall|k: int| 0 <= k < p implies #[trigger] ranks_before(
                    entries@,
                    before[k] as int,
                    j as int,
                ) by {}
                assert forall|k: int| p <= k < before.len() implies #[trigger] ranks_before(
                    entries@,
                    j as int,
                    before[k] as int,
                ) by {
                    if k > p {
                        assert(ranks_before(entries@, before[p as int] as int, before[k] as int));
                    }
                }
                assert(!before.contains(j));
            }
            if p < n {
                top.insert(p, j);
                let ghost grown = top@;
                proof {
                    assert forall|a: int, b: int| 0 <= a < b < grown.len() implies ranks_before(
                        entries@,
                        grown[a] as int,
                        grown[b] as int,
                    ) by {
                        if a < p && b > p {
                            assert(grown[a] == before[a]);
                            assert(grown[b] == before[b - 1]);
                        }
                    }
                    assert forall|i: usize| before.contains(i) implies grown.contains(i) by {
                        let at = choose|at: int| 0 <= at < before.len() && before[at] == i;
                        if at < p {
                            assert(grown[at] == i);
                        } else {
                            assert(grown[at + 1] == i);
                        }
                    }
                    assert(grown[p as int] == j);
                    assert(grown.contains(j));
                }
                if top.len() > n {
                    let _dropped = top.pop();
                    proof {
                        let kept = top@;
                        let last = grown[grown.len() - 1];
                        assert(kept =~= grown.drop_last());
                        assert(last == before[before.len() - 1]);
                        assert forall|k: int, i: usize|
                            0 <= k < kept.len() && i < j + 1 && !kept.contains(
                                i,
                            ) implies #[trigger] ranks_before(entries@, kept[k] as int, i as int) by {
                            assert(ranks_before(entries@, kept[k] as int, last as int));
                            if i != last {
                                if grown.contains(i) {
                                    let at = choose|at: int| 0 <= at < grown.len() && grown[at] == i;
                                    assert(kept[at] == i);
                                }
                                assert(!before.contains(i));
                                assert(ranks_before(entries@, last as int, i as int));
                            }
                        }
                    }
                } else {
                    proof {
                        assert forall|k: int, i: usize|
                            0 <= k < grown.len() && i < j + 1 && !grown.contains(
                                i,
                            ) implies #[trigger] ranks_before(entries@, grown[k] as int, i as int) by {
                            assert(before.contains(i));
                        }
                    }
                }
            } else {
                proof {
                    assert(top@.len() > 0 ==> top@.contains(top@[0]));
                }
            }
            j += 1;
        }
        top
    }

    /// The `n` identities that own the most, best first.
    pub fn top(entries: &Vec<IdentityAggregate>, n: usize) -> (out: Vec<IdentityAggregate>)
        ensures
            exists|top: Seq<usize>|
                is_top(entries@, n as nat, top) && out@.len() == top.len() && forall|k: int|
                    0 <= k < top.len() ==> out@[k] == entries@[#[trigger] top[k] as int],
            forall|a: int, b: int|
                0 <= a <= b < out@.len() ==> out@[a].capacity >= out@[b].capacity,
    {
        let top = TopNRanker::rank(entries, n);
        let mut out: Vec<IdentityAggregate> = Vec::new();
        let mut k: usize = 0;
        while k < top.len()
            invariant
                k <= top@.len(),
                is_top(entries@, n as nat, top@),
                out@.len() == k,
                forall|i: int| 0 <= i < k ==> out@[i] == entries@[#[trigger] top@[i] as int],
            decreases top@.len() - k,
        {
            out.push(entries[top[k]]);
            k += 1;
        }
        proof {
            assert forall|a: int, b: int| 0 <= a <= b < out@.len() implies out@[a].capacity
                >= out@[b].capacity by {
                if a < b {
                    assert(ranks_before(entries@, top@[a] as int, top@[b] as int));
                }
            }
        }
        out
    }
}

} // verus!
