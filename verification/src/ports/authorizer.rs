//! Which databases a caller may use.

use vstd::prelude::*;

verus! {

/// The pairs that are allowed, in order.
pub open spec fn allowed_pairs(
    pairs: Seq<(String, String)>,
    can_query: Seq<bool>,
    can_execute: Seq<bool>,
) -> Seq<(String, String)>
    decreases pairs.len(),
{
    if pairs.len() == 0 {
        seq![]
    } else {
        let n = pairs.len() - 1;
        let rest = allowed_pairs(pairs.drop_last(), can_query, can_execute);
        if can_query[n] || can_execute[n] {
            rest.push(pairs.last())
        } else {
            rest
        }
    }
}

/// The databases and environments on which the caller may submit requests:
/// those with `RequestQuery` or `RequestExecute`, as the authorizer answered
/// for each.
pub fn filter_accessible(
    pairs: &Vec<(String, String)>,
    can_query: &Vec<bool>,
    can_execute: &Vec<bool>,
) -> (r: Vec<(String, String)>)
    requires
        can_query@.len() == pairs@.len(),
        can_execute@.len() == pairs@.len(),
    ensures
        r@ == allowed_pairs(pairs@, can_query@, can_execute@),
{
    let mut out: Vec<(String, String)> = Vec::new();
    let n: usize = pairs.len();
    let mut i: usize = 0;
    while i < n
        invariant
            i <= n,
            n == pairs@.len(),
            n == can_query@.len(),
            n == can_execute@.len(),
            out@ == allowed_pairs(pairs@.take(i as int), can_query@, can_execute@),
        decreases n - i,
    {
        proof {
            assert(pairs@.take(i + 1).drop_last() =~= pairs@.take(i as int));
            assert(pairs@.take(i + 1).last() == pairs@[i as int]);
        }
        if can_query[i] || can_execute[i] {
            out.push((pairs[i].0.clone(), pairs[i].1.clone()));
        }
        i += 1;
    }
    assert(pairs@.take(n as int) =~= pairs@);
    out
}

/// A pair is accessible exactly if the caller may query it or execute on it.
pub proof fn either_permission_gives_access(
    pairs: Vec<(String, String)>,
    can_query: Vec<bool>,
    can_execute: Vec<bool>,
    r: Vec<(String, String)>,
    i: int,
    k: int,
)
    requires
        can_query@.len() == pairs@.len(),
        can_execute@.len() == pairs@.len(),
        call_ensures(filter_accessible, (&pairs, &can_query, &can_execute), r),
        0 <= i < pairs@.len(),
        0 <= k < r@.len(),
    ensures
        can_query@[i] || can_execute@[i] ==> r@.contains(pairs@[i]),
        exists|j: int|
            0 <= j < pairs@.len() && #[trigger] pairs@[j] == r@[k] && (can_query@[j]
                || can_execute@[j]),
        r@.len() <= pairs@.len(),
{
    lemma_allowed(pairs@, can_query@, can_execute@, i, k);
}

proof fn lemma_allowed(
    pairs: Seq<(String, String)>,
    can_query: Seq<bool>,
    can_execute: Seq<bool>,
    i: int,
    k: int,
)
    ensures
        0 <= i < pairs.len() && (can_query[i] || can_execute[i]) ==> allowed_pairs(
            pairs,
            can_query,
            can_execute,
        ).contains(pairs[i]),
        0 <= k < allowed_pairs(pairs, can_query, can_execute).len() ==> exists|j: int|
            0 <= j < pairs.len() && #[trigger] pairs[j] == allowed_pairs(
                pairs,
                can_query,
                can_execute,
            )[k] && (can_query[j] || can_execute[j]),
        allowed_pairs(pairs, can_query, can_execute).len() <= pairs.len(),
    decreases pairs.len(),
{
    if pairs.len() > 0 {
        let before = pairs.drop_last();
        let rest = allowed_pairs(before, can_query, can_execute);
        let all = allowed_pairs(pairs, can_query, can_execute);
        lemma_allowed(before, can_query, can_execute, i, k);
        if 0 <= i < pairs.len() && (can_query[i] || can_execute[i]) {
            if i < before.len() {
                assert(before[i] == pairs[i]);
                let x = choose|x: int| 0 <= x < rest.len() && rest[x] == pairs[i];
                assert(all[x] == pairs[i]);
            } else {
                assert(all[all.len() - 1] == pairs[i]);
            }
        }
        if 0 <= k < all.len() {
            if k < rest.len() {
                let j = choose|j: int|
                    0 <= j < before.len() && #[trigger] before[j] == rest[k] && (can_query[j]
                        || can_execute[j]);
                assert(pairs[j] == all[k]);
            } else {
                assert(pairs[pairs.len() - 1] == all[k]);
            }
        }
    }
}

} // verus!
