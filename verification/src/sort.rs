//! A stable sort by a strict weak order (what `slice::sort_by` computes).
use vstd::prelude::*;
use vstd::set_lib::{
    set_int_range, lemma_int_range, lemma_map_size, lemma_subset_equality,
};

verus! {

/// A strict weak order on the items of type `T` for which `valid` holds:
/// `before(a, b)` reads "`a` sorts strictly before `b`".
pub trait WeakOrder<T> {
    spec fn valid(&self, a: T) -> bool;

    spec fn before(&self, a: T, b: T) -> bool;

    fn is_before(&self, a: &T, b: &T) -> (r: bool)
        requires
            self.valid(*a),
            self.valid(*b),
        ensures
            r == self.before(*a, *b),
    ;

    proof fn lemma_asymmetric(&self, a: T, b: T)
        requires
            self.valid(a),
            self.valid(b),
            self.before(a, b),
        ensures
            !self.before(b, a),
    ;

    proof fn lemma_not_before_transitive(&self, a: T, b: T, c: T)
        requires
            self.valid(a),
            self.valid(b),
            self.valid(c),
            !self.before(b, a),
            !self.before(c, b),
        ensures
            !self.before(c, a),
    ;
}

/// No item of `s` sorts strictly before an item that precedes it.
pub open spec fn sorted_by<T, O: WeakOrder<T>>(o: &O, s: Seq<T>) -> bool {
    forall|i: int, j: int| 0 <= i < j < s.len() ==> !o.before(#[trigger] s[j], #[trigger] s[i])
}

/// `output[i]` is `input[p[i]]`, and `p` is a permutation of the indexes of
/// `input`.
pub open spec fn arranges<T>(input: Seq<T>, output: Seq<T>, p: Seq<int>) -> bool {
    &&& p.len() == output.len()
    &&& output.len() == input.len()
    &&& forall|i: int| 0 <= i < p.len() ==> 0 <= #[trigger] p[i] < input.len()
    &&& forall|i: int| 0 <= i < p.len() ==> output[i] == input[#[trigger] p[i]]
    &&& forall|i: int, j: int| 0 <= i < j < p.len() ==> #[trigger] p[i] != #[trigger] p[j]
}

/// Items that are equivalent under the order keep their relative order.
pub open spec fn stable_by<T, O: WeakOrder<T>>(o: &O, output: Seq<T>, p: Seq<int>) -> bool {
    forall|i: int, j: int|
        0 <= i < j < output.len() && !o.before(#[trigger] output[i], #[trigger] output[j]) ==> p[i]
            < p[j]
}

/// `output` is the stable sort of `input` by `o`.
pub open spec fn is_stable_sort<T, O: WeakOrder<T>>(o: &O, input: Seq<T>, output: Seq<T>) -> bool {
    exists|p: Seq<int>|
        #![trigger arranges(input, output, p)]
        arranges(input, output, p) && sorted_by(o, output) && stable_by(o, output, p)
}

/// Sorts `v` stably by `o` (insertion sort: items are taken from the back and
/// inserted in front of every item they do not sort after).
pub fn stable_sort<T, O: WeakOrder<T>>(o: &O, v: Vec<T>) -> (res: Vec<T>)
    requires
        forall|i: int| 0 <= i < v@.len() ==> o.valid(#[trigger] v@[i]),
    ensures
        is_stable_sort(o, v@, res@),
{
    let ghost input = v@;
    let mut v = v;
    let mut res: Vec<T> = Vec::new();
    let ghost mut p: Seq<int> = Seq::empty();
    while v.len() > 0
        invariant
            forall|i: int| 0 <= i < input.len() ==> o.valid(#[trigger] input[i]),
            v@ == input.take(v@.len() as int),
            v@.len() <= input.len(),
            p.len() == res@.len(),
            res@.len() + v@.len() == input.len(),
            forall|i: int| 0 <= i < p.len() ==> v@.len() <= #[trigger] p[i] < input.len(),
            forall|i: int| 0 <= i < p.len() ==> res@[i] == input[#[trigger] p[i]],
            forall|i: int, j: int| 0 <= i < j < p.len() ==> #[trigger] p[i] != #[trigger] p[j],
            sorted_by(o, res@),
            stable_by(o, res@, p),
        decreases v@.len(),
    {
        let x = v.pop().unwrap();
        let k = v.len();
        assert(x == input[k as int]);
        assert(v@ == input.take(k as int));
        let mut pos: usize = 0;
        assert forall|i: int| 0 <= i < res@.len() implies o.valid(#[trigger] res@[i]) by {
            assert(res@[i] == input[p[i]]);
        }
        while pos < res.len() && o.is_before(&res[pos], &x)
            invariant
                0 <= pos <= res@.len(),
                o.valid(x),
                forall|i: int| 0 <= i < input.len() ==> o.valid(#[trigger] input[i]),
                forall|i: int| 0 <= i < p.len() ==> res@[i] == input[#[trigger] p[i]],
                forall|i: int| 0 <= i < p.len() ==> k < #[trigger] p[i] < input.len(),
                p.len() == res@.len(),
                forall|i: int| 0 <= i < res@.len() ==> o.valid(#[trigger] res@[i]),
                forall|j: int| 0 <= j < pos ==> o.before(#[trigger] res@[j], x),
            decreases res@.len() - pos,
        {
            pos = pos + 1;
        }
        let ghost old_res = res@;
        let ghost old_p = p;
        res.insert(pos, x);
        proof {
            p = old_p.insert(pos as int, k as int);
            assert(res@ == old_res.insert(pos as int, x));
            assert forall|i: int| 0 <= i < p.len() implies k <= #[trigger] p[i] < input.len() by {
                if i < pos {
                    assert(p[i] == old_p[i]);
                } else if i > pos {
                    assert(p[i] == old_p[i - 1]);
                }
            }
            assert forall|i: int| 0 <= i < p.len() implies res@[i] == input[#[trigger] p[i]] by {
                if i < pos {
                    assert(p[i] == old_p[i]);
                } else if i > pos {
                    assert(p[i] == old_p[i - 1]);
                }
            }
            assert forall|i: int, j: int| 0 <= i < j < p.len() implies #[trigger] p[i]
                != #[trigger] p[j] by {
                if i < pos && j < pos {
                    assert(p[i] == old_p[i] && p[j] == old_p[j]);
                } else if i < pos && j == pos {
                    assert(p[i] == old_p[i]);
                } else if i < pos && j > pos {
                    assert(p[i] == old_p[i] && p[j] == old_p[j - 1]);
                } else if i == pos {
                    assert(p[j] == old_p[j - 1]);
                } else {
                    assert(p[i] == old_p[i - 1] && p[j] == old_p[j - 1]);
                }
            }
            assert forall|i: int, j: int| 0 <= i < j < res@.len() implies !o.before(
                #[trigger] res@[j],
                #[trigger] res@[i],
            ) by {
                let ri = res@[i];
                let rj = res@[j];
                assert(o.valid(ri)) by {
                    assert(ri == input[p[i]]);
                }
                assert(o.valid(rj)) by {
                    assert(rj == input[p[j]]);
                }
                if i < pos && j < pos {
                    assert(ri == old_res[i] && rj == old_res[j]);
                } else if i < pos && j == pos {
                    assert(ri == old_res[i]);
                    assert(o.before(old_res[i], x));
                    o.lemma_asymmetric(ri, x);
                } else if i < pos && j > pos {
                    assert(ri == old_res[i] && rj == old_res[j - 1]);
                } else if i == pos {
                    // x and a later item: no later item sorts before x
                    assert(rj == old_res[j - 1]);
                    let first = old_res[pos as int];
                    assert(!o.before(first, x));
                    assert(o.valid(first)) by {
                        assert(first == input[old_p[pos as int]]);
                    }
                    if j - 1 > pos {
                        assert(!o.before(old_res[j - 1], old_res[pos as int]));
                        o.lemma_not_before_transitive(x, first, rj);
                    }
                } else {
                    assert(ri == old_res[i - 1] && rj == old_res[j - 1]);
                }
            }
            assert forall|i: int, j: int|
                0 <= i < j < res@.len() && !o.before(
                    #[trigger] res@[i],
                    #[trigger] res@[j],
                ) implies p[i] < p[j] by {
                if i < pos && j < pos {
                    assert(res@[i] == old_res[i] && res@[j] == old_res[j]);
                    assert(p[i] == old_p[i] && p[j] == old_p[j]);
                } else if i < pos && j == pos {
                    assert(res@[i] == old_res[i]);
                    assert(o.before(old_res[i], x));
                } else if i < pos && j > pos {
                    assert(res@[i] == old_res[i] && res@[j] == old_res[j - 1]);
                    assert(p[i] == old_p[i] && p[j] == old_p[j - 1]);
                } else if i == pos {
                    assert(p[j] == old_p[j - 1]);
                } else {
                    assert(res@[i] == old_res[i - 1] && res@[j] == old_res[j - 1]);
                    assert(p[i] == old_p[i - 1] && p[j] == old_p[j - 1]);
                }
            }
        }
    }
    assert(arranges(input, res@, p));
    res
}

// ---------------------------------------------------------------------------
// The stable sort is unique
// ---------------------------------------------------------------------------

/// A stable sort must put input index `j` before input index `k`: its item
/// sorts strictly before, or it is equivalent and comes first in the input.
pub open spec fn placed_before<T, O: WeakOrder<T>>(o: &O, input: Seq<T>, j: int, k: int) -> bool {
    o.before(input[j], input[k]) || (!o.before(input[k], input[j]) && j < k)
}

/// The input indexes a stable sort must put before input index `k`.
pub open spec fn must_precede<T, O: WeakOrder<T>>(o: &O, input: Seq<T>, k: int) -> Set<int> {
    Set::new(|j: int| 0 <= j < input.len() && placed_before(o, input, j, k))
}

/// The arrangement of a sorted, stable output puts exactly the indexes
/// that must precede `p[i]` at the positions before `i`.
proof fn lemma_positions_before<T, O: WeakOrder<T>>(o: &O, input: Seq<T>, output: Seq<T>, p: Seq<int>, i: int)
    requires
        forall|x: int| 0 <= x < input.len() ==> o.valid(#[trigger] input[x]),
        arranges(input, output, p),
        sorted_by(o, output),
        stable_by(o, output, p),
        0 <= i < p.len(),
    ensures
        forall|a: int| 0 <= a < p.len() ==> (a < i <==> placed_before(o, input, #[trigger] p[a], p[i])),
{
    assert forall|a: int| 0 <= a < p.len() implies (a < i <==> placed_before(o, input, #[trigger] p[a], p[i])) by {
        let x = output[a];
        let y = output[i];
        assert(x == input[p[a]] && y == input[p[i]]);
        assert(o.valid(x) && o.valid(y));
        if a < i {
            assert(!o.before(output[i], output[a]));
            if !o.before(x, y) {
                assert(p[a] < p[i]);
            }
        } else if a > i {
            assert(!o.before(output[a], output[i]));
            if !o.before(y, x) {
                assert(p[i] < p[a]);
            }
        } else {
            if o.before(x, x) {
                o.lemma_asymmetric(x, x);
            }
        }
    }
}

/// An arrangement of `input` reaches every index of it.
proof fn lemma_arrangement_onto<T>(input: Seq<T>, output: Seq<T>, p: Seq<int>, j: int)
    requires
        arranges(input, output, p),
        0 <= j < input.len(),
    ensures
        exists|a: int| 0 <= a < p.len() && #[trigger] p[a] == j,
{
    let n = input.len() as int;
    let at = |a: int| p[a];
    let positions = set_int_range(0, n);
    lemma_int_range(0, n);
    let reached = positions.map(at);
    assert forall|a: int, b: int|
        positions.contains(a) && positions.contains(b) && #[trigger] at(a) == #[trigger] at(b) implies a == b by {
        if a < b {
            assert(p[a] != p[b]);
        } else if b < a {
            assert(p[b] != p[a]);
        }
    }
    lemma_map_size(positions, reached, at);
    assert forall|x: int| reached.contains(x) implies set_int_range(0, n).contains(x) by {
        let a = choose|a: int| positions.contains(a) && x == at(a);
        assert(0 <= p[a] < n);
    }
    lemma_subset_equality(reached, set_int_range(0, n));
    assert(reached.contains(j));
}

/// In a stable sort, input index `p[i]` lands at position `i`, and `i` is
/// the number of indexes that must precede it.
proof fn lemma_position_is_count<T, O: WeakOrder<T>>(o: &O, input: Seq<T>, output: Seq<T>, p: Seq<int>, i: int)
    requires
        forall|x: int| 0 <= x < input.len() ==> o.valid(#[trigger] input[x]),
        arranges(input, output, p),
        sorted_by(o, output),
        stable_by(o, output, p),
        0 <= i < p.len(),
    ensures
        must_precede(o, input, p[i]).finite(),
        must_precede(o, input, p[i]).len() == i,
{
    lemma_positions_before(o, input, output, p, i);
    let at = |a: int| p[a];
    let before_i = set_int_range(0, i);
    lemma_int_range(0, i);
    let target = must_precede(o, input, p[i]);
    assert forall|x: int| before_i.map(at).contains(x) <==> target.contains(x) by {
        if before_i.map(at).contains(x) {
            let a = choose|a: int| before_i.contains(a) && x == at(a);
            assert(placed_before(o, input, p[a], p[i]));
        }
        if target.contains(x) {
            lemma_arrangement_onto(input, output, p, x);
            let a = choose|a: int| 0 <= a < p.len() && #[trigger] p[a] == x;
            assert(placed_before(o, input, p[a], p[i]));
            assert(before_i.contains(a) && x == at(a));
        }
    }
    assert(before_i.map(at) =~= target);
    assert forall|a: int, b: int|
        before_i.contains(a) && before_i.contains(b) && #[trigger] at(a) == #[trigger] at(b) implies a == b by {
        if a < b {
            assert(p[a] != p[b]);
        } else if b < a {
            assert(p[b] != p[a]);
        }
    }
    lemma_map_size(before_i, target, at);
}

/// There is only one stable sort of a sequence: any two outputs that both
/// are stable sorts of `input` by `o` are the same. (So `stable_sort`
/// gives what any other stable sort by the same order gives.)
pub proof fn lemma_stable_sort_unique<T, O: WeakOrder<T>>(o: &O, input: Seq<T>, first: Seq<T>, second: Seq<T>)
    requires
        forall|x: int| 0 <= x < input.len() ==> o.valid(#[trigger] input[x]),
        is_stable_sort(o, input, first),
        is_stable_sort(o, input, second),
    ensures
        first == second,
{
    let p1 = choose|p: Seq<int>|
        #![trigger arranges(input, first, p)]
        arranges(input, first, p) && sorted_by(o, first) && stable_by(o, first, p);
    let p2 = choose|p: Seq<int>|
        #![trigger arranges(input, second, p)]
        arranges(input, second, p) && sorted_by(o, second) && stable_by(o, second, p);
    assert forall|i: int| 0 <= i < first.len() implies first[i] == second[i] by {
        let k = p1[i];
        lemma_position_is_count(o, input, first, p1, i);
        lemma_arrangement_onto(input, second, p2, k);
        let i2 = choose|a: int| 0 <= a < p2.len() && #[trigger] p2[a] == k;
        lemma_position_is_count(o, input, second, p2, i2);
        assert(i2 == i);
        assert(first[i] == input[k]);
        assert(second[i] == input[p2[i]]);
    }
    assert(first =~= second);
}

} // verus!
