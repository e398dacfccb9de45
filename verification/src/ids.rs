//! Lists of identifiers without repetition, in ascending order.
use vstd::prelude::*;

verus! {

/// Every identifier is smaller than the ones behind it.
pub open spec fn ascending(ids: Seq<i32>) -> bool {
    forall|i: int, j: int| 0 <= i < j < ids.len() ==> ids[i] < ids[j]
}

/// `ids`, which ascends, with `id` put in its place, unless it is there already.
pub open spec fn with_id(ids: Seq<i32>, id: i32) -> Seq<i32>
    decreases ids.len(),
{
    if ids.len() == 0 || ids.last() < id {
        ids.push(id)
    } else if ids.last() == id {
        ids
    } else {
        with_id(ids.drop_last(), id).push(ids.last())
    }
}

/// The identifiers that occur in `ids`, each once, in ascending order.
pub open spec fn distinct(ids: Seq<i32>) -> Seq<i32>
    decreases ids.len(),
{
    if ids.len() == 0 {
        ids
    } else {
        with_id(distinct(ids.drop_last()), ids.last())
    }
}

proof fn lemma_with_id(ids: Seq<i32>, id: i32)
    requires
        ascending(ids),
    ensures
        ascending(with_id(ids, id)),
        forall|x: i32| #[trigger] with_id(ids, id).contains(x) <==> ids.contains(x) || x == id,
    decreases ids.len(),
{
    let r = with_id(ids, id);
    if ids.len() == 0 || ids.last() < id {
        assert(r[ids.len() as int] == id);
        assert forall|x: i32| ids.contains(x) implies #[trigger] r.contains(x) by {
            let k = choose|k: int| 0 <= k < ids.len() && ids[k] == x;
            assert(r[k] == x);
        }
    } else if ids.last() == id {
    } else {
        let front = ids.drop_last();
        lemma_with_id(front, id);
        let f = with_id(front, id);
        assert(r[f.len() as int] == ids.last());
        assert forall|i: int, j: int| 0 <= i < j < r.len() implies r[i] < r[j] by {
            if j == f.len() {
                assert(f.contains(f[i]));
                if front.contains(f[i]) {
                    let k = choose|k: int| 0 <= k < front.len() && front[k] == f[i];
                    assert(ids[k] == f[i]);
                }
            }
        }
        assert forall|x: i32| #[trigger] r.contains(x) <==> ids.contains(x) || x == id by {
            if r.contains(x) {
                let k = choose|k: int| 0 <= k < r.len() && r[k] == x;
                if k < f.len() {
                    assert(f[k] == x);
                    assert(f.contains(x));
                    if front.contains(x) {
                        let m = choose|m: int| 0 <= m < front.len() && front[m] == x;
                        assert(ids[m] == x);
                    }
                } else {
                    assert(ids[ids.len() - 1] == x);
                }
            }
            if ids.contains(x) {
                let k = choose|k: int| 0 <= k < ids.len() && ids[k] == x;
                if k < front.len() {
                    assert(front[k] == x);
                    assert(f.contains(x));
                }
            }
            if f.contains(x) {
                let k = choose|k: int| 0 <= k < f.len() && f[k] == x;
                assert(r[k] == x);
            }
            if x == id {
                assert(f.contains(x));
            }
        }
    }
}

/// `distinct` ascends and holds exactly the identifiers of its argument.
pub proof fn distinct_is_ascending_and_complete(ids: Seq<i32>)
    ensures
        ascending(distinct(ids)),
        forall|x: i32| #[trigger] distinct(ids).contains(x) <==> ids.contains(x),
    decreases ids.len(),
{
    if ids.len() > 0 {
        let front = ids.drop_last();
        distinct_is_ascending_and_complete(front);
        lemma_with_id(distinct(front), ids.last());
        assert forall|x: i32| #[trigger] distinct(ids).contains(x) <==> ids.contains(x) by {
            if ids.contains(x) {
                let k = choose|k: int| 0 <= k < ids.len() && ids[k] == x;
                if k < front.len() {
                    assert(front[k] == x);
                }
            }
            if front.contains(x) {
                let k = choose|k: int| 0 <= k < front.len() && front[k] == x;
                assert(ids[k] == x);
            }
        }
    }
}

/// An ascending list is settled by the identifiers that it holds.
pub proof fn ascending_is_settled_by_members(a: Seq<i32>, b: Seq<i32>)
    requires
        ascending(a),
        ascending(b),
        forall|x: i32| #[trigger] a.contains(x) <==> b.contains(x),
    ensures
        a == b,
    decreases a.len(),
{
    if a.len() == 0 {
        if b.len() > 0 {
            assert(b.contains(b[0]));
            assert(a.contains(b[0]));
        }
        assert(a =~= b);
    } else {
        assert(a.contains(a.last()));
        let kb = choose|k: int| 0 <= k < b.len() && b[k] == a.last();
        assert(b.contains(b.last()));
        assert(a.contains(b.last()));
        let ka = choose|k: int| 0 <= k < a.len() && a[k] == b.last();
        assert(a.last() == b.last());
        let fa = a.drop_last();
        let fb = b.drop_last();
        assert forall|x: i32| #[trigger] fa.contains(x) <==> fb.contains(x) by {
            if fa.contains(x) {
                let k = choose|k: int| 0 <= k < fa.len() && fa[k] == x;
                assert(a[k] == x);
                assert(a.contains(x));
                assert(b.contains(x));
                let m = choose|m: int| 0 <= m < b.len() && b[m] == x;
                assert(fb[m] == x);
            }
            if fb.contains(x) {
                let k = choose|k: int| 0 <= k < fb.len() && fb[k] == x;
                assert(b[k] == x);
                assert(b.contains(x));
                assert(a.contains(x));
                let m = choose|m: int| 0 <= m < a.len() && a[m] == x;
                assert(fa[m] == x);
            }
        }
        ascending_is_settled_by_members(fa, fb);
        assert(a =~= fa.push(a.last()));
        assert(b =~= fb.push(b.last()));
    }
}

/// Neither order nor repetition matters to `distinct`: lists with the same identifiers give the
/// same result.
pub proof fn distinct_ignores_order_and_repetition(a: Seq<i32>, b: Seq<i32>)
    requires
        forall|x: i32| #[trigger] a.contains(x) <==> b.contains(x),
    ensures
        distinct(a) == distinct(b),
{
    distinct_is_ascending_and_complete(a);
    distinct_is_ascending_and_complete(b);
    assert forall|x: i32| #[trigger] distinct(a).contains(x) <==> distinct(b).contains(x) by {
        assert(a.contains(x) <==> b.contains(x));
    }
    ascending_is_settled_by_members(distinct(a), distinct(b));
}

/// An ascending list is its own `distinct`.
pub proof fn distinct_keeps_ascending(ids: Seq<i32>)
    requires
        ascending(ids),
    ensures
        distinct(ids) == ids,
{
    distinct_is_ascending_and_complete(ids);
    ascending_is_settled_by_members(distinct(ids), ids);
}

/// `distinct` is as long as its argument has different identifiers.
pub proof fn distinct_counts_members(ids: Seq<i32>)
    ensures
        distinct(ids).len() == ids.to_set().len(),
        ids.len() > 0 <==> distinct(ids).len() > 0,
        distinct(ids).len() <= ids.len(),
{
    let d = distinct(ids);
    distinct_is_ascending_and_complete(ids);
    assert(d.no_duplicates());
    d.unique_seq_to_set();
    assert(d.to_set() =~= ids.to_set()) by {
        assert forall|x: i32| d.to_set().contains(x) <==> ids.to_set().contains(x) by {
            assert(d.contains(x) <==> ids.contains(x));
        }
    }
    if ids.len() > 0 {
        assert(ids.contains(ids[0]));
        assert(d.contains(ids[0]));
    }
    if d.len() > 0 {
        assert(d.contains(d[0]));
        assert(ids.contains(d[0]));
    }
    ids.lemma_cardinality_of_set();
}

/// `at` is the first position from `from` on that bears its identifier.
pub open spec fn is_first(ids: Seq<i32>, from: int, at: int) -> bool {
    &&& from <= at < ids.len()
    &&& forall|j: int| from <= j < at ==> ids[j] != ids[at]
}

/// One of the positions `at` bears the identifier `id`.
spec fn bears(ids: Seq<i32>, at: Seq<usize>, id: i32) -> bool {
    exists|k: int| 0 <= k < at.len() && ids[#[trigger] at[k] as int] == id
}

/// The identifiers at the positions `at` ascend.
spec fn ascending_at(ids: Seq<i32>, at: Seq<usize>) -> bool {
    forall|k: int, m: int| 0 <= k < m < at.len() ==> ids[at[k] as int] < ids[at[m] as int]
}

/// Each of the positions `at` is the first in `ids[from..to]` with its identifier.
spec fn all_first(ids: Seq<i32>, from: int, to: int, at: Seq<usize>) -> bool {
    forall|k: int|
        0 <= k < at.len() ==> (#[trigger] at[k]) < to && is_first(ids, from, at[k] as int)
}

/// `at` lists where the identifiers in `ids[from..to]` first occur, by ascending identifier.
spec fn lists_firsts(ids: Seq<i32>, from: int, to: int, at: Seq<usize>) -> bool {
    &&& all_first(ids, from, to, at)
    &&& ascending_at(ids, at)
    &&& forall|j: int| from <= j < to ==> bears(ids, at, #[trigger] ids[j])
}

proof fn lemma_bears_push(ids: Seq<i32>, at: Seq<usize>, next: usize)
    ensures
        bears(ids, at.push(next), ids[next as int]),
        forall|id: i32| #[trigger] bears(ids, at, id) ==> bears(ids, at.push(next), id),
{
    let all = at.push(next);
    assert(all[at.len() as int] == next);
    assert forall|id: i32| #[trigger] bears(ids, at, id) implies bears(ids, all, id) by {
        let k = choose|k: int| 0 <= k < at.len() && ids[#[trigger] at[k] as int] == id;
        assert(all[k] == at[k]);
    }
}

/// A position of the right half is first in the whole when the left half does not bear its
/// identifier.
proof fn lemma_first_in_whole(
    ids: Seq<i32>,
    from: int,
    mid: int,
    left: Seq<usize>,
    at: int,
)
    requires
        from <= mid <= at < ids.len(),
        lists_firsts(ids, from, mid, left),
        is_first(ids, mid, at),
        !bears(ids, left, ids[at]),
    ensures
        is_first(ids, from, at),
{
    assert forall|q: int| from <= q < at implies ids[q] != ids[at] by {
        if q < mid {
            assert(bears(ids, left, ids[q]));
        }
    }
}

fn merge_firsts(
    ids: &Vec<i32>,
    from: usize,
    mid: usize,
    to: usize,
    left: &Vec<usize>,
    right: &Vec<usize>,
) -> (r: Vec<usize>)
    requires
        from <= mid <= to <= ids@.len(),
        lists_firsts(ids@, from as int, mid as int, left@),
        lists_firsts(ids@, mid as int, to as int, right@),
    ensures
        lists_firsts(ids@, from as int, to as int, r@),
{
    let mut r: Vec<usize> = Vec::new();
    let mut i: usize = 0;
    let mut j: usize = 0;
    while i < left.len() || j < right.len()
        invariant
            from <= mid <= to <= ids@.len(),
            lists_firsts(ids@, from as int, mid as int, left@),
            lists_firsts(ids@, mid as int, to as int, right@),
            i <= left@.len(),
            j <= right@.len(),
            all_first(ids@, from as int, to as int, r@),
            ascending_at(ids@, r@),
            r@.len() > 0 && i < left@.len() ==> ids@[r@.last() as int] < ids@[left@[i as int] as int],
            r@.len() > 0 && j < right@.len() ==> ids@[r@.last() as int] < ids@[right@[j as int] as int],
            forall|m: int| 0 <= m < i ==> bears(ids@, r@, ids@[#[trigger] left@[m] as int]),
            forall|m: int| 0 <= m < j ==> bears(ids@, r@, ids@[#[trigger] right@[m] as int]),
        decreases left@.len() - i + right@.len() - j,
    {
        if i < left.len() {
            assert(is_first(ids@, from as int, left@[i as int] as int));
        }
        if j < right.len() {
            assert(is_first(ids@, mid as int, right@[j as int] as int));
        }
        if j == right.len() || (i < left.len() && ids[left[i]] <= ids[right[j]]) {
            proof {
                lemma_bears_push(ids@, r@, left@[i as int]);
            }
            if j < right.len() && ids[left[i]] == ids[right[j]] {
                j = j + 1;
            }
            r.push(left[i]);
            i = i + 1;
        } else {
            proof {
                let at = right@[j as int] as int;
                if bears(ids@, left@, ids@[at]) {
                    let k = choose|k: int|
                        0 <= k < left@.len() && ids@[#[trigger] left@[k] as int] == ids@[at];
                    if k < i {
                        assert(bears(ids@, r@, ids@[left@[k] as int]));
                        let w = choose|w: int|
                            0 <= w < r@.len() && ids@[#[trigger] r@[w] as int] == ids@[at];
                        if w < r@.len() - 1 {
                            assert(ids@[r@[w] as int] < ids@[r@[r@.len() - 1] as int]);
                        }
                    } else if k > i {
                        assert(ids@[left@[i as int] as int] < ids@[left@[k] as int]);
                    }
                    assert(false);
                }
                lemma_first_in_whole(ids@, from as int, mid as int, left@, at);
                lemma_bears_push(ids@, r@, right@[j as int]);
            }
            r.push(right[j]);
            j = j + 1;
        }
    }
    proof {
        assert forall|q: int| from <= q < to implies bears(ids@, r@, #[trigger] ids@[q]) by {
            if q < mid {
                assert(bears(ids@, left@, ids@[q]));
                let m = choose|m: int|
                    0 <= m < left@.len() && ids@[#[trigger] left@[m] as int] == ids@[q];
                assert(bears(ids@, r@, ids@[left@[m] as int]));
            } else {
                assert(bears(ids@, right@, ids@[q]));
                let m = choose|m: int|
                    0 <= m < right@.len() && ids@[#[trigger] right@[m] as int] == ids@[q];
                assert(bears(ids@, r@, ids@[right@[m] as int]));
            }
        }
    }
    r
}

fn firsts_between(ids: &Vec<i32>, from: usize, to: usize) -> (r: Vec<usize>)
    requires
        from <= to <= ids@.len(),
    ensures
        lists_firsts(ids@, from as int, to as int, r@),
    decreases to - from,
{
    let mut r: Vec<usize> = Vec::new();
    if from == to {
        return r;
    }
    if to - from == 1 {
        r.push(from);
        proof {
            lemma_bears_push(ids@, Seq::empty(), from);
            assert(r@ =~= Seq::empty().push(from));
        }
        return r;
    }
    let mid: usize = from + (to - from) / 2;
    let left: Vec<usize> = firsts_between(ids, from, mid);
    let right: Vec<usize> = firsts_between(ids, mid, to);
    merge_firsts(ids, from, mid, to, &left, &right)
}

/// Where each identifier first occurs, by ascending identifier.
pub fn first_positions(ids: &Vec<i32>) -> (r: Vec<usize>)
    ensures
        r@.len() == distinct(ids@).len(),
        forall|k: int|
            0 <= k < r@.len() ==> is_first(ids@, 0, #[trigger] r@[k] as int) && ids@[r@[k] as int]
                == distinct(ids@)[k],
{
    let r: Vec<usize> = firsts_between(ids, 0, ids.len());
    proof {
        let listed = Seq::new(r@.len(), |k: int| ids@[r@[k] as int]);
        distinct_is_ascending_and_complete(ids@);
        assert forall|x: i32| #[trigger] listed.contains(x) <==> distinct(ids@).contains(x) by {
            if listed.contains(x) {
                let k = choose|k: int| 0 <= k < listed.len() && listed[k] == x;
                assert(is_first(ids@, 0, r@[k] as int));
                assert(ids@.contains(x));
            }
            if ids@.contains(x) {
                let j = choose|j: int| 0 <= j < ids@.len() && ids@[j] == x;
                assert(bears(ids@, r@, ids@[j]));
                let k = choose|k: int| 0 <= k < r@.len() && ids@[#[trigger] r@[k] as int] == ids@[j];
                assert(listed[k] == x);
            }
        }
        ascending_is_settled_by_members(listed, distinct(ids@));
        assert forall|k: int| 0 <= k < r@.len() implies is_first(ids@, 0, #[trigger] r@[k] as int)
            && ids@[r@[k] as int] == distinct(ids@)[k] by {
            assert(listed[k] == ids@[r@[k] as int]);
        }
    }
    r
}

/// The identifiers that occur in `ids`, each once, in ascending order.
pub fn distinct_ids(ids: &Vec<i32>) -> (r: Vec<i32>)
    ensures
        r@ == distinct(ids@),
{
    let at: Vec<usize> = first_positions(ids);
    let mut r: Vec<i32> = Vec::new();
    let mut k: usize = 0;
    while k < at.len()
        invariant
            k <= at@.len(),
            at@.len() == distinct(ids@).len(),
            forall|m: int|
                0 <= m < at@.len() ==> is_first(ids@, 0, #[trigger] at@[m] as int) && ids@[at@[m] as int]
                    == distinct(ids@)[m],
            r@.len() == k,
            forall|m: int| 0 <= m < k ==> #[trigger] r@[m] == distinct(ids@)[m],
        decreases at@.len() - k,
    {
        assert(is_first(ids@, 0, at@[k as int] as int));
        r.push(ids[at[k]]);
        k = k + 1;
    }
    assert(r@ =~= distinct(ids@));
    r
}

/// Whether `id` occurs in `ids`.
pub fn has_id(ids: &Vec<i32>, id: i32) -> (r: bool)
    ensures
        r == ids@.contains(id),
{
    let mut i: usize = 0;
    while i < ids.len()
        invariant
            i <= ids@.len(),
            forall|j: int| 0 <= j < i ==> ids@[j] != id,
        decreases ids@.len() - i,
    {
        if ids[i] == id {
            assert(ids@[i as int] == id);
            return true;
        }
        i = i + 1;
    }
    false
}

} // verus!
