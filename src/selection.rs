use vstd::prelude::*;

verus! {

/// `chosen` names `k` distinct members of a population scored by `scores`,
/// best first, and no member left out scores above a member chosen.
pub open spec fn is_top_selection(scores: Seq<i64>, chosen: Seq<usize>, k: int) -> bool {
    &&& chosen.len() == k
    &&& forall|i: int| 0 <= i < k ==> chosen[i] < scores.len()
    &&& forall|i: int, j: int| 0 <= i < j < k ==> chosen[i] != chosen[j]
    &&& forall|i: int, j: int|
        0 <= i < j < k ==> scores[chosen[i] as int] >= scores[chosen[j] as int]
    &&& forall|i: int, u: int|
        0 <= i < k && 0 <= u < scores.len() && !chosen.contains(u as usize) ==> #[trigger] scores[u]
            <= scores[#[trigger] chosen[i] as int]
}

/// `best` is a position of a highest score, the first one.
pub open spec fn is_first_best(scores: Seq<i64>, best: int) -> bool {
    &&& 0 <= best < scores.len()
    &&& forall|i: int| 0 <= i < scores.len() ==> scores[i] <= scores[best]
    &&& forall|i: int| 0 <= i < best ==> scores[i] < scores[best]
}

/// The survivors of a generation: the positions of the `count` highest
/// scores, best first. Ties are broken by position.
pub fn select_survivors(scores: &Vec<i64>, count: usize) -> (chosen: Vec<usize>)
    requires
        count <= scores.len(),
    ensures
        is_top_selection(scores@, chosen@, count as int),
{
    let n = scores.len();
    let mut order: Vec<usize> = Vec::new();
    let mut u: usize = 0;
    while u < n
        invariant
            u <= n,
            order.len() == u,
            forall|p: int| 0 <= p < u ==> order[p] == p,
        decreases n - u,
    {
        order.push(u);
        u = u + 1;
    }
    // `place[v]` is where `v` currently stands in `order`.
    let ghost mut place: Seq<int> = Seq::new(n as nat, |v: int| v);
    let mut i: usize = 0;
    while i < count
        invariant
            n == scores.len(),
            count <= n,
            i <= count,
            order.len() == n,
            place.len() == n,
            forall|p: int| 0 <= p < n ==> order[p] < n,
            forall|v: int| 0 <= v < n ==> 0 <= #[trigger] place[v] < n && order[place[v]] == v,
            forall|a: int, b: int| 0 <= a < b < n ==> order[a] != order[b],
            forall|a: int, b: int|
                0 <= a < b < i ==> scores[order[a] as int] >= scores[order[b] as int],
            forall|a: int, b: int|
                0 <= a < i <= b < n ==> scores[order[a] as int] >= scores[order[b] as int],
        decreases count - i,
    {
        let mut best: usize = i;
        let mut j: usize = i + 1;
        while j < n
            invariant
                n == scores.len(),
                order.len() == n,
                i < n,
                i <= best < n,
                best < j <= n,
                forall|p: int| 0 <= p < n ==> order[p] < n,
                forall|b: int|
                    i <= b < j ==> scores[order[b] as int] <= scores[order[best as int] as int],
            decreases n - j,
        {
            if scores[order[j]] > scores[order[best]] {
                best = j;
            }
            j = j + 1;
        }
        let a = order[i];
        let b = order[best];
        proof {
            place = place.update(a as int, best as int).update(b as int, i as int);
        }
        order[i] = b;
        order[best] = a;
        i = i + 1;
    }
    let ghost full = order@;
    order.truncate(count);
    proof {
        assert forall|k: int, v: int|
            0 <= k < count && 0 <= v < n && !order@.contains(v as usize) implies #[trigger] scores[v]
            <= scores[#[trigger] order[k] as int] by {
            assert(full[place[v]] == v);
            if place[v] < count {
                assert(order@[place[v]] == v as usize);
            }
        }
    }
    order
}

/// The position of the highest score; the first one where several share it.
pub fn best_index(scores: &Vec<i64>) -> (best: usize)
    requires
        scores.len() > 0,
    ensures
        is_first_best(scores@, best as int),
{
    let mut best: usize = 0;
    let mut j: usize = 1;
    while j < scores.len()
        invariant
            1 <= j <= scores.len(),
            is_first_best(scores@.subrange(0, j as int), best as int),
        decreases scores.len() - j,
    {
        if scores[j] > scores[best] {
            best = j;
        }
        j = j + 1;
    }
    assert(scores@.subrange(0, scores.len() as int) =~= scores@);
    best
}

} // verus!
