//! Stable ordering by integer keys, and the similarity ranking built on it.
//!
//! A similarity score is a 32-bit float, handled here by its bit pattern. For
//! scores that are not NaN, `score_key` maps the bit pattern to an integer
//! that orders as the float does (both zeros map to 0), so ranking needs no
//! float arithmetic.
use vstd::prelude::*;
use crate::seq_facts::lemma_filter_step;

verus! {

/// Whether index `i` comes before index `j` when ordering by `keys`: a larger
/// key first when `descending` (a smaller one otherwise), and between equal
/// keys the lower index first.
pub open spec fn precedes_spec(keys: Seq<i64>, descending: bool, i: int, j: int) -> bool {
    (if descending {
        keys[i] > keys[j]
    } else {
        keys[i] < keys[j]
    }) || (keys[i] == keys[j] && i < j)
}

/// `order` holds the first `k` indices (all of them when `k` is larger) of
/// `0 .. keys.len()` in the stable order by key.
pub open spec fn is_stable_prefix(keys: Seq<i64>, descending: bool, k: nat, order: Seq<usize>) -> bool {
    &&& order.len() == if k < keys.len() {
        k as int
    } else {
        keys.len() as int
    }
    &&& forall|p: int| 0 <= p < order.len() ==> order[p] < keys.len()
    &&& forall|p: int, q: int|
        0 <= p < q < order.len() ==> precedes_spec(keys, descending, order[p] as int, order[q] as int)
    &&& forall|x: int, p: int|
        0 <= x < keys.len() && 0 <= p < order.len() && !order.contains(x as usize) ==> precedes_spec(
            keys,
            descending,
            order[p] as int,
            x,
        )
}

fn precedes(keys: &Vec<i64>, descending: bool, i: usize, j: usize) -> (r: bool)
    requires
        i < keys@.len(),
        j < keys@.len(),
    ensures
        r == precedes_spec(keys@, descending, i as int, j as int),
{
    let (a, b) = (keys[i], keys[j]);
    (if descending {
        a > b
    } else {
        a < b
    }) || (a == b && i < j)
}

/// The first `k` indices of `keys` in stable order: by key (descending or
/// ascending), equal keys in index order.
pub fn stable_order(keys: &Vec<i64>, descending: bool, k: usize) -> (r: Vec<usize>)
    ensures
        is_stable_prefix(keys@, descending, k as nat, r@),
{
    let n = keys.len();
    let m = if k < n {
        k
    } else {
        n
    };
    // The indices not chosen yet, in increasing order.
    let mut rest: Vec<usize> = Vec::new();
    let mut i: usize = 0;
    while i < n
        invariant
            n == keys@.len(),
            i <= n,
            rest@.len() == i,
            forall|p: int| 0 <= p < i ==> rest@[p] == p,
        decreases n - i,
    {
        rest.push(i);
        i = i + 1;
    }
    let mut order: Vec<usize> = Vec::new();
    assert forall|x: usize| x < n implies #[trigger] order@.contains(x) || rest@.contains(x) by {
        assert(rest@[x as int] == x);
    }
    while order.len() < m
        invariant
            n == keys@.len(),
            m <= n,
            m == (if k < n {
                k
            } else {
                n
            }),
            order@.len() <= m,
            order@.len() + rest@.len() == n,
            forall|p: int| 0 <= p < order@.len() ==> order@[p] < n,
            forall|p: int| 0 <= p < rest@.len() ==> rest@[p] < n,
            forall|p: int, q: int| 0 <= p < q < rest@.len() ==> rest@[p] < rest@[q],
            forall|x: usize| x < n ==> #[trigger] order@.contains(x) || rest@.contains(x),
            forall|p: int, q: int|
                0 <= p < q < order@.len() ==> precedes_spec(
                    keys@,
                    descending,
                    order@[p] as int,
                    order@[q] as int,
                ),
            forall|p: int, y: int|
                0 <= p < order@.len() && 0 <= y < rest@.len() ==> precedes_spec(
                    keys@,
                    descending,
                    order@[p] as int,
                    rest@[y] as int,
                ),
        decreases m - order@.len(),
    {
        let mut bi: usize = 0;
        let mut j: usize = 1;
        while j < rest.len()
            invariant
                n == keys@.len(),
                0 < rest@.len(),
                forall|p: int| 0 <= p < rest@.len() ==> rest@[p] < n,
                forall|p: int, q: int| 0 <= p < q < rest@.len() ==> rest@[p] < rest@[q],
                bi < j <= rest@.len(),
                forall|y: int|
                    0 <= y < j && y != bi ==> precedes_spec(
                        keys@,
                        descending,
                        rest@[bi as int] as int,
                        rest@[y] as int,
                    ),
            decreases rest@.len() - j,
        {
            if precedes(keys, descending, rest[j], rest[bi]) {
                bi = j;
            }
            j = j + 1;
        }
        let ghost old_rest = rest@;
        let ghost old_order = order@;
        let best = rest.remove(bi);
        order.push(best);
        proof {
            assert forall|x: usize| x < n implies #[trigger] order@.contains(x) || rest@.contains(
                x,
            ) by {
                if old_order.contains(x) {
                    let p = choose|p: int| 0 <= p < old_order.len() && old_order[p] == x;
                    assert(order@[p] == x);
                } else {
                    let y = choose|y: int| 0 <= y < old_rest.len() && old_rest[y] == x;
                    if y == bi {
                        assert(order@[old_order.len() as int] == x);
                    } else if y < bi {
                        assert(rest@[y] == x);
                    } else {
                        assert(rest@[y - 1] == x);
                    }
                }
            }
            assert forall|p: int, y: int|
                0 <= p < order@.len() && 0 <= y < rest@.len() implies precedes_spec(
                keys@,
                descending,
                order@[p] as int,
                rest@[y] as int,
            ) by {
                let z = if y < bi {
                    y
                } else {
                    y + 1
                };
                assert(rest@[y] == old_rest[z]);
                if p < old_order.len() {
                } else {
                    assert(z != bi);
                }
            }
        }
    }
    proof {
        assert forall|x: int, p: int|
            0 <= x < n && 0 <= p < order@.len() && !order@.contains(
                x as usize,
            ) implies precedes_spec(keys@, descending, order@[p] as int, x) by {
            assert(order@.contains(x as usize) || rest@.contains(x as usize));
            let y = choose|y: int| 0 <= y < rest@.len() && rest@[y] == x as usize;
        }
    }
    order
}

/// Two orderings that both are the stable prefix of the same length are the
/// same: ranking never orders equal scores differently from one run to the
/// next.
pub proof fn lemma_stable_prefix_unique(
    keys: Seq<i64>,
    descending: bool,
    k: nat,
    a: Seq<usize>,
    b: Seq<usize>,
)
    requires
        is_stable_prefix(keys, descending, k, a),
        is_stable_prefix(keys, descending, k, b),
    ensures
        a == b,
{
    assert forall|p: int| 0 <= p < a.len() implies a[p] == b[p] by {
        lemma_stable_prefix_agree(keys, descending, k, a, b, p);
    }
    assert(a =~= b);
}

proof fn lemma_stable_prefix_agree(
    keys: Seq<i64>,
    descending: bool,
    k: nat,
    a: Seq<usize>,
    b: Seq<usize>,
    p: int,
)
    requires
        is_stable_prefix(keys, descending, k, a),
        is_stable_prefix(keys, descending, k, b),
        0 <= p < a.len(),
    ensures
        a[p] == b[p],
    decreases p,
{
    if p > 0 {
        assert forall|q: int| 0 <= q < p implies a[q] == b[q] by {
            lemma_stable_prefix_agree(keys, descending, k, a, b, q);
        }
    }
    if a[p] != b[p] {
        let (x, y) = (a[p] as int, b[p] as int);
        // `x` precedes `y` in `a`, whether or not `a` holds `y`.
        if a.contains(b[p]) {
            let q = choose|q: int| 0 <= q < a.len() && a[q] == b[p];
            if q < p {
                assert(b[q] == b[p]);
                assert(precedes_spec(keys, descending, b[q] as int, b[p] as int));
            }
            assert(precedes_spec(keys, descending, x, y));
        } else {
            assert(precedes_spec(keys, descending, x, y));
        }
        if b.contains(a[p]) {
            let q = choose|q: int| 0 <= q < b.len() && b[q] == a[p];
            if q < p {
                assert(a[q] == a[p]);
                assert(precedes_spec(keys, descending, a[q] as int, a[p] as int));
            }
            assert(precedes_spec(keys, descending, y, x));
        } else {
            assert(precedes_spec(keys, descending, y, x));
        }
    }
}

/// The order key of a 32-bit float given by its bit pattern: the bits
/// themselves for a positive sign, the negated magnitude bits for a negative
/// one. Both zeros map to 0.
pub open spec fn score_key_spec(bits: u32) -> i64 {
    if bits & 0x8000_0000 == 0 {
        bits as i64
    } else {
        (-((bits & 0x7fff_ffff) as int)) as i64
    }
}

/// Computes the order key of a score's bit pattern.
pub fn score_key(bits: u32) -> (r: i64)
    ensures
        r == score_key_spec(bits),
{
    if bits & 0x8000_0000 == 0 {
        bits as i64
    } else {
        -((bits & 0x7fff_ffff) as i64)
    }
}

/// The keys of the candidates: a candidate without an embedding scores 0.0,
/// whose key is 0.
pub open spec fn candidate_keys(scores: Seq<Option<u32>>) -> Seq<i64> {
    Seq::new(
        scores.len(),
        |i: int|
            match scores[i] {
                Some(bits) => score_key_spec(bits),
                None => 0,
            },
    )
}

fn keys_of(scores: &Vec<Option<u32>>) -> (r: Vec<i64>)
    ensures
        r@ == candidate_keys(scores@),
{
    let mut keys: Vec<i64> = Vec::new();
    let mut i: usize = 0;
    while i < scores.len()
        invariant
            i <= scores@.len(),
            keys@ == candidate_keys(scores@).subrange(0, i as int),
        decreases scores@.len() - i,
    {
        let key = match scores[i] {
            Some(bits) => score_key(bits),
            None => 0,
        };
        keys.push(key);
        assert(keys@ =~= candidate_keys(scores@).subrange(0, i + 1));
        i = i + 1;
    }
    assert(keys@ =~= candidate_keys(scores@));
    keys
}

/// Ranks candidates by similarity score, highest first, equal scores in
/// candidate order, and keeps the first `top_k`. `scores[i]` is the bit
/// pattern of candidate `i`'s score, `None` when it has no embedding; the
/// result lists candidate indices.
pub fn rank(scores: &Vec<Option<u32>>, top_k: usize) -> (r: Vec<usize>)
    ensures
        is_stable_prefix(candidate_keys(scores@), true, top_k as nat, r@),
{
    let keys = keys_of(scores);
    stable_order(&keys, true, top_k)
}

/// Whether a candidate's key lies above the key of the floor.
pub open spec fn above_floor(keys: Seq<i64>, floor: i64) -> spec_fn(usize) -> bool {
    |i: usize| keys[i as int] > floor
}

/// The ranked candidates whose score lies above the similarity floor, in
/// rank order.
pub fn semantic_matches(scores: &Vec<Option<u32>>, top_k: usize, floor_bits: u32) -> (r: Vec<usize>)
    ensures
        exists|order: Seq<usize>|
            is_stable_prefix(candidate_keys(scores@), true, top_k as nat, order) && r@
                == order.filter(above_floor(candidate_keys(scores@), score_key_spec(floor_bits))),
{
    let keys = keys_of(scores);
    let floor = score_key(floor_bits);
    let order = stable_order(&keys, true, top_k);
    let ghost pred = above_floor(candidate_keys(scores@), score_key_spec(floor_bits));
    let mut r: Vec<usize> = Vec::new();
    let mut p: usize = 0;
    proof {
        reveal(Seq::filter);
    }
    while p < order.len()
        invariant
            p <= order@.len(),
            keys@ == candidate_keys(scores@),
            floor == score_key_spec(floor_bits),
            forall|q: int| 0 <= q < order@.len() ==> order@[q] < keys@.len(),
            pred == above_floor(candidate_keys(scores@), score_key_spec(floor_bits)),
            r@ == order@.subrange(0, p as int).filter(pred),
        decreases order@.len() - p,
    {
        let i = order[p];
        let ghost before = r@;
        if keys[i] > floor {
            r.push(i);
        }
        proof {
            assert(pred(i) == (keys@[i as int] > floor));
            lemma_filter_step(order@, p as int, pred);
        }
        p = p + 1;
    }
    assert(order@.subrange(0, order@.len() as int) =~= order@);
    r
}

} // verus!
