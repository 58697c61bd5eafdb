use crate::records::AccountId;
use std::collections::HashMap;
use vstd::prelude::*;

verus! {

broadcast use vstd::std_specs::hash::group_hash_axioms;

/// Ticket identifiers in strictly increasing order; strictness also rules
/// out duplicates.
pub open spec fn strictly_sorted(s: Seq<u64>) -> bool {
    forall|i: int, j: int| 0 <= i < j < s.len() ==> s[i] < s[j]
}

/// The ticket identifiers the index holds for account `a`; an account
/// without an entry holds none.
pub open spec fn ids_of(m: Map<AccountId, Vec<u64>>, a: AccountId) -> Seq<u64> {
    if m.contains_key(a) {
        m[a]@
    } else {
        Seq::empty()
    }
}

/// How many identifiers the index holds for account `a`.
pub fn ids_len(m: &HashMap<AccountId, Vec<u64>>, a: AccountId) -> (n: usize)
    ensures
        n == ids_of(m@, a).len(),
{
    match m.get(&a) {
        Some(ids) => ids.len(),
        None => 0,
    }
}

/// Takes account `a`'s identifier list out of the index; the caller puts an
/// updated list back with `put_ids`.
pub fn take_ids(m: &mut HashMap<AccountId, Vec<u64>>, a: AccountId) -> (ids: Vec<u64>)
    ensures
        ids@ == ids_of(old(m)@, a),
        final(m)@ == old(m)@.remove(a),
{
    match m.remove(&a) {
        Some(ids) => ids,
        None => Vec::new(),
    }
}

/// Stores `ids` as account `a`'s identifier list.
pub fn put_ids(m: &mut HashMap<AccountId, Vec<u64>>, a: AccountId, ids: Vec<u64>)
    ensures
        final(m)@ == old(m)@.insert(a, ids),
{
    m.insert(a, ids);
}

/// Inserts `x` into a strictly sorted list, keeping it strictly sorted.
pub fn insert_id(ids: &mut Vec<u64>, x: u64)
    requires
        strictly_sorted(old(ids)@),
        !old(ids)@.contains(x),
        old(ids)@.len() < usize::MAX,
    ensures
        strictly_sorted(final(ids)@),
        final(ids)@.len() == old(ids)@.len() + 1,
        forall|y: u64| final(ids)@.contains(y) <==> old(ids)@.contains(y) || y == x,
{
    let ghost pre = ids@;
    let mut i: usize = 0;
    while i < ids.len() && ids[i] < x
        invariant
            ids@ == pre,
            i <= pre.len(),
            forall|k: int| 0 <= k < i ==> pre[k] < x,
        decreases pre.len() - i,
    {
        i += 1;
    }
    proof {
        assert forall|k: int| i <= k < pre.len() implies pre[k] > x by {
            if k > i {
                assert(pre[i as int] < pre[k]);
            }
            assert(pre[k] != x) by {
                assert(pre.contains(pre[k]) == false ==> false);
            }
        }
    }
    ids.insert(i, x);
    proof {
        pre.insert_ensures(i as int, x);
        let post = ids@;
        assert(strictly_sorted(post)) by {
            assert forall|p: int, q: int| 0 <= p < q < post.len() implies post[p] < post[q] by {
                if q < i {
                    assert(post[p] == pre[p] && post[q] == pre[q]);
                } else if p > i {
                    assert(post[p] == pre[p - 1] && post[q] == pre[q - 1]);
                } else if p == i {
                    assert(post[p] == x && post[q] == pre[q - 1]);
                } else if q == i {
                    assert(post[p] == pre[p] && post[q] == x);
                } else {
                    assert(post[p] == pre[p] && post[q] == pre[q - 1]);
                    if p < i && i < q {
                        if q - 1 == i {
                            assert(pre[q - 1] > x && pre[p] < x);
                        } else {
                            assert(pre[p] < pre[q - 1]);
                        }
                    }
                }
            }
        }
        assert forall|y: u64| post.contains(y) implies (pre.contains(y) || y == x) by {
            let idx = choose|idx: int| 0 <= idx < post.len() && post[idx] == y;
            if idx < i {
                assert(pre[idx] == y);
            } else if idx == i {
                assert(y == x);
            } else {
                assert(pre[idx - 1] == y);
            }
        }
        assert forall|y: u64| (pre.contains(y) || y == x) implies post.contains(y) by {
            if y == x {
                assert(post[i as int] == y);
            } else {
                let idx = choose|idx: int| 0 <= idx < pre.len() && pre[idx] == y;
                if idx < i {
                    assert(post[idx] == y);
                } else {
                    assert(post[idx + 1] == y);
                }
            }
        }
    }
}

/// Removes `x` from a strictly sorted list that contains it.
pub fn remove_id(ids: &mut Vec<u64>, x: u64)
    requires
        strictly_sorted(old(ids)@),
        old(ids)@.contains(x),
    ensures
        strictly_sorted(final(ids)@),
        final(ids)@.len() == old(ids)@.len() - 1,
        forall|y: u64| final(ids)@.contains(y) <==> old(ids)@.contains(y) && y != x,
{
    let ghost pre = ids@;
    let mut i: usize = 0;
    while i < ids.len() && ids[i] != x
        invariant
            ids@ == pre,
            i <= pre.len(),
            forall|k: int| 0 <= k < i ==> pre[k] != x,
        decreases pre.len() - i,
    {
        i += 1;
    }
    proof {
        let idx = choose|idx: int| 0 <= idx < pre.len() && pre[idx] == x;
        assert(i < pre.len());
    }
    ids.remove(i);
    proof {
        pre.remove_ensures(i as int);
        let post = ids@;
        assert(strictly_sorted(post)) by {
            assert forall|p: int, q: int| 0 <= p < q < post.len() implies post[p] < post[q] by {
                if q < i {
                    assert(post[p] == pre[p] && post[q] == pre[q]);
                } else if p >= i {
                    assert(post[p] == pre[p + 1] && post[q] == pre[q + 1]);
                } else {
                    assert(post[p] == pre[p] && post[q] == pre[q + 1]);
                }
            }
        }
        assert forall|y: u64| post.contains(y) implies (pre.contains(y) && y != x) by {
            let idx = choose|idx: int| 0 <= idx < post.len() && post[idx] == y;
            if idx < i {
                assert(pre[idx] == y);
                assert(y < pre[i as int]);
            } else {
                assert(pre[idx + 1] == y);
                assert(y > pre[i as int]);
            }
        }
        assert forall|y: u64| (pre.contains(y) && y != x) implies post.contains(y) by {
            let idx = choose|idx: int| 0 <= idx < pre.len() && pre[idx] == y;
            if idx < i {
                assert(post[idx] == y);
            } else {
                assert(idx != i);
                assert(post[idx - 1] == y);
            }
        }
    }
}

} // verus!
