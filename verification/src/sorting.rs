//! A stable sort of positions by keys under a strict total order.

use vstd::prelude::*;

verus! {

/// Keys compared by a strict total order (`key_eq` is the equivalence of keys).
pub trait SortKey: Sized {
    spec fn key_lt(&self, other: &Self) -> bool;

    spec fn key_eq(&self, other: &Self) -> bool;

    fn less_than(&self, other: &Self) -> (r: bool)
        ensures
            r == self.key_lt(other),
    ;

    proof fn lemma_total_order(a: &Self, b: &Self, c: &Self)
        ensures
            !a.key_lt(a),
            a.key_eq(a),
            a.key_eq(b) ==> b.key_eq(a),
            a.key_lt(b) ==> !b.key_lt(a) && !a.key_eq(b),
            a.key_lt(b) || b.key_lt(a) || a.key_eq(b),
            a.key_lt(b) && b.key_lt(c) ==> a.key_lt(c),
            a.key_eq(b) && b.key_eq(c) ==> a.key_eq(c),
            a.key_lt(b) && b.key_eq(c) ==> a.key_lt(c),
            a.key_eq(b) && b.key_lt(c) ==> a.key_lt(c),
    ;
}

/// Position `i` comes before position `j`: a smaller key, or an equal key and an
/// earlier position.
pub open spec fn comes_before<K: SortKey>(keys: Seq<K>, i: int, j: int) -> bool {
    keys[i].key_lt(&keys[j]) || (keys[i].key_eq(&keys[j]) && i < j)
}

/// `p` lists every position of `keys` once, in the order `comes_before`.
pub open spec fn is_sorted_permutation<K: SortKey>(keys: Seq<K>, p: Seq<usize>) -> bool {
    &&& p.len() == keys.len()
    &&& forall|a: int| 0 <= a < p.len() ==> p[a] < keys.len()
    &&& forall|a: int, b: int| 0 <= a < b < p.len() ==> p[a] != p[b]
    &&& forall|a: int, b: int|
        0 <= a < b < p.len() ==> #[trigger] comes_before(keys, p[a] as int, p[b] as int)
    &&& forall|j: usize| j < keys.len() ==> #[trigger] p.contains(j)
}

/// The positions of `keys`, stably sorted by key.
pub fn sorted_positions<K: SortKey>(keys: &Vec<K>) -> (p: Vec<usize>)
    ensures
        is_sorted_permutation(keys@, p@),
{
    let n = keys.len();
    let mut out: Vec<usize> = Vec::new();
    let mut i: usize = 0;
    while i < n
        invariant
            n == keys.len(),
            i <= n,
            out.len() == i,
            forall|a: int| 0 <= a < out.len() ==> out@[a] < i,
            forall|a: int, b: int| 0 <= a < b < out.len() ==> out@[a] != out@[b],
            forall|a: int, b: int|
                0 <= a < b < out.len() ==> #[trigger] comes_before(
                    keys@,
                    out@[a] as int,
                    out@[b] as int,
                ),
            forall|j: usize| j < i ==> #[trigger] out@.contains(j),
        decreases n - i,
    {
        let mut pos: usize = 0;
        while pos < out.len() && !keys[i].less_than(&keys[out[pos]])
            invariant
                n == keys.len(),
                i < n,
                out.len() == i,
                pos <= out.len(),
                forall|a: int| 0 <= a < out.len() ==> out@[a] < i,
                forall|a: int| 0 <= a < pos ==> !keys@[i as int].key_lt(&keys@[out@[a] as int]),
            decreases out.len() - pos,
        {
            pos = pos + 1;
        }
        let ghost old_out = out@;
        proof {
            assert forall|a: int| 0 <= a < pos implies comes_before(keys@, old_out[a] as int, i as int) by {
                K::lemma_total_order(&keys@[i as int], &keys@[old_out[a] as int], &keys@[i as int]);
            }
            if pos < old_out.len() {
                assert forall|a: int| pos <= a < old_out.len() implies comes_before(keys@, i as int, old_out[a] as int) by {
                    let x = old_out[pos as int] as int;
                    let y = old_out[a] as int;
                    K::lemma_total_order(&keys@[i as int], &keys@[x], &keys@[y]);
                    if a > pos {
                        assert(comes_before(keys@, x, y));
                    }
                }
            }
        }
        out.insert(pos, i);
        proof {
            assert forall|a: int, b: int| 0 <= a < b < out.len() implies #[trigger] comes_before(
                keys@,
                out@[a] as int,
                out@[b] as int,
            ) by {
                if a < pos && b < pos {
                    assert(out@[a] == old_out[a] && out@[b] == old_out[b]);
                } else if a < pos && b == pos {
                } else if a < pos && b > pos {
                    assert(out@[a] == old_out[a] && out@[b] == old_out[b - 1]);
                    assert(comes_before(keys@, old_out[a] as int, old_out[b - 1] as int));
                } else if a == pos {
                    assert(out@[b] == old_out[b - 1]);
                } else {
                    assert(out@[a] == old_out[a - 1] && out@[b] == old_out[b - 1]);
                    assert(comes_before(keys@, old_out[a - 1] as int, old_out[b - 1] as int));
                }
            }
            assert forall|a: int, b: int| 0 <= a < b < out.len() implies out@[a] != out@[b] by {
                if a < pos && b > pos {
                    assert(out@[a] == old_out[a] && out@[b] == old_out[b - 1]);
                } else if a > pos {
                    assert(out@[a] == old_out[a - 1] && out@[b] == old_out[b - 1]);
                } else if b < pos {
                    assert(out@[a] == old_out[a] && out@[b] == old_out[b]);
                }
            }
            assert forall|j: usize| j < i + 1 implies #[trigger] out@.contains(j) by {
                if j == i {
                    assert(out@[pos as int] == i);
                } else {
                    assert(old_out.contains(j));
                    let a = choose|a: int| 0 <= a < old_out.len() && old_out[a] == j;
                    if a < pos {
                        assert(out@[a] == old_out[a]);
                    } else {
                        assert(out@[a + 1] == old_out[a]);
                    }
                }
            }
            assert forall|a: int| 0 <= a < out.len() implies out@[a] < i + 1 by {
                if a < pos {
                    assert(out@[a] == old_out[a]);
                } else if a > pos {
                    assert(out@[a] == old_out[a - 1]);
                }
            }
        }
        i = i + 1;
    }
    out
}

} // verus!
