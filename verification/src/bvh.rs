//! The discrete skeleton of the bounding-volume-hierarchy build.
//!
//! The hierarchy is a binary tree over the primitives, built by recursive
//! median partition: order the primitives, split them at the median, and
//! recurse until at most two remain. All the floating-point work — box
//! unions, the choice of ordering axis, the coordinates themselves — stays
//! outside this crate; the renderer hands each primitive in as a pair of an
//! integer order key (an order-preserving image of its coordinate on the
//! chosen axis) and its index. [`bvh_split_step`] performs one partition
//! step, and [`build_index_tree`] performs the whole recursion, returning
//! the tree's shape as an [`IndexTree`] whose leaves are proved to hold
//! exactly the input items — the built tree loses no primitive and invents
//! none, and the recursion terminates. The renderer then walks that tree
//! once, attaching each primitive and its bounding box.

use vstd::prelude::*;

use vstd::arithmetic::div_mod::lemma_div_is_strictly_smaller;
use vstd::arithmetic::div_mod::lemma_div_non_zero;
use vstd::multiset::Multiset;
use vstd::seq_lib::lemma_multiset_commutative;

verus! {

broadcast use vstd::seq_lib::group_to_multiset_ensures, vstd::multiset::group_multiset_axioms;

/// The items stand in order of their keys.
pub open spec fn sorted_by_key(s: Seq<(u64, usize)>) -> bool {
    forall|i: int, j: int| 0 <= i <= j < s.len() ==> s[i].0 <= s[j].0
}

/// Order the items by key: a permutation of the input, sorted.
fn sort_by_key(items: Vec<(u64, usize)>) -> (sorted: Vec<(u64, usize)>)
    ensures
        sorted@.len() == items@.len(),
        sorted@.to_multiset() == items@.to_multiset(),
        sorted_by_key(sorted@),
{
    let ghost orig = items@;
    let mut rest = items;
    let mut out: Vec<(u64, usize)> = Vec::new();
    proof {
        assert(out@.to_multiset().add(rest@.to_multiset()) =~= orig.to_multiset());
    }
    while rest.len() > 0
        invariant
            out@.len() + rest@.len() == orig.len(),
            out@.to_multiset().add(rest@.to_multiset()) == orig.to_multiset(),
            sorted_by_key(out@),
            forall|p: int, k: int|
                0 <= p < out@.len() && 0 <= k < rest@.len() ==> out@[p].0 <= rest@[k].0,
        decreases rest@.len(),
    {
        let mut m: usize = 0;
        let mut k: usize = 1;
        while k < rest.len()
            invariant
                0 < rest@.len(),
                m < k <= rest@.len(),
                forall|t: int| 0 <= t < k ==> rest@[m as int].0 <= rest@[t].0,
            decreases rest@.len() - k,
        {
            if rest[k].0 < rest[m].0 {
                m = k;
            }
            k = k + 1;
        }
        let ghost before = rest@;
        let v = rest.remove(m);
        proof {
            assert(before.to_multiset().count(v) > 0);
            assert(out@.push(v).to_multiset().add(rest@.to_multiset()) =~= out@.to_multiset().add(
                before.to_multiset(),
            ));
        }
        out.push(v);
    }
    out
}

/// One median partition step of the hierarchy build.
///
/// Each item is an integer order key paired with the index of the primitive
/// it stands for. The result orders the items by key and splits them at the
/// median: the left half holds the lower half of the order, the right half
/// the rest, together a permutation of the input, and both halves are
/// strictly smaller than the input, so the recursive build terminates.
pub fn bvh_split_step(items: Vec<(u64, usize)>) -> (halves: (Vec<(u64, usize)>, Vec<(u64, usize)>))
    requires
        items@.len() >= 3,
    ensures
        halves.0@.len() == items@.len() / 2,
        halves.1@.len() == items@.len() - items@.len() / 2,
        halves.0@.len() < items@.len(),
        halves.1@.len() < items@.len(),
        (halves.0@ + halves.1@).to_multiset() == items@.to_multiset(),
        sorted_by_key(halves.0@),
        sorted_by_key(halves.1@),
        forall|i: int, j: int|
            0 <= i < halves.0@.len() && 0 <= j < halves.1@.len() ==> halves.0@[i].0
                <= halves.1@[j].0,
{
    proof {
        lemma_div_is_strictly_smaller(items@.len() as int, 2);
        lemma_div_non_zero(items@.len() as int, 2);
    }
    let sorted = sort_by_key(items);
    let mid = sorted.len() / 2;

    let mut left: Vec<(u64, usize)> = Vec::new();
    let mut i: usize = 0;
    while i < mid
        invariant
            i <= mid <= sorted@.len(),
            left@ == sorted@.subrange(0, i as int),
        decreases mid - i,
    {
        let v = sorted[i];
        left.push(v);
        i = i + 1;
        proof {
            assert(left@ =~= sorted@.subrange(0, i as int));
        }
    }

    let mut right: Vec<(u64, usize)> = Vec::new();
    let mut j: usize = mid;
    while j < sorted.len()
        invariant
            mid <= j <= sorted@.len(),
            right@ == sorted@.subrange(mid as int, j as int),
        decreases sorted@.len() - j,
    {
        let v = sorted[j];
        right.push(v);
        j = j + 1;
        proof {
            assert(right@ =~= sorted@.subrange(mid as int, j as int));
        }
    }

    proof {
        assert(left@ + right@ =~= sorted@);
        assert(sorted_by_key(left@));
        assert(sorted_by_key(right@));
    }
    (left, right)
}

/// The shape of the hierarchy over the primitives: a leaf holds at most one
/// item (none only in an empty tree), an interior node holds two subtrees.
/// Each item is the order key and primitive index it was built from.
pub enum IndexTree {
    Leaf(Option<(u64, usize)>),
    Node(Box<IndexTree>, Box<IndexTree>),
}

/// Everything the tree's leaves hold, as a multiset.
pub open spec fn leaf_items(t: IndexTree) -> Multiset<(u64, usize)>
    decreases t,
{
    match t {
        IndexTree::Leaf(None) => Multiset::empty(),
        IndexTree::Leaf(Some(p)) => Multiset::empty().insert(p),
        IndexTree::Node(l, r) => leaf_items(*l).add(leaf_items(*r)),
    }
}

/// Whether any leaf of the tree is empty.
pub open spec fn has_empty_leaf(t: IndexTree) -> bool
    decreases t,
{
    match t {
        IndexTree::Leaf(p) => p is None,
        IndexTree::Node(l, r) => has_empty_leaf(*l) || has_empty_leaf(*r),
    }
}

/// Build the hierarchy's tree over the keyed items: no item — an empty
/// leaf; one — a leaf; two — a node over two leaves, in the given order;
/// more — a node over the recursively built halves of the median partition.
/// The leaves hold exactly the input items (a permutation: nothing is lost
/// or invented), and no leaf is empty unless the input was.
pub fn build_index_tree(items: Vec<(u64, usize)>) -> (t: IndexTree)
    ensures
        leaf_items(t) == items@.to_multiset(),
        has_empty_leaf(t) <==> items@.len() == 0,
    decreases items@.len(),
{
    if items.len() == 0 {
        proof {
            assert(items@.to_multiset() =~= Multiset::<(u64, usize)>::empty());
        }
        IndexTree::Leaf(None)
    } else if items.len() == 1 {
        let p = items[0];
        proof {
            assert(items@ =~= Seq::<(u64, usize)>::empty().push(p));
            assert(items@.to_multiset() =~= Multiset::<(u64, usize)>::empty().insert(p));
        }
        IndexTree::Leaf(Some(p))
    } else if items.len() == 2 {
        let p0 = items[0];
        let p1 = items[1];
        proof {
            assert(items@ =~= Seq::<(u64, usize)>::empty().push(p0).push(p1));
            assert(items@.to_multiset() =~= Multiset::<(u64, usize)>::empty().insert(p0).add(
                Multiset::<(u64, usize)>::empty().insert(p1),
            ));
        }
        let leaf_low = IndexTree::Leaf(Some(p0));
        let leaf_high = IndexTree::Leaf(Some(p1));
        let ghost g0 = leaf_low;
        let ghost g1 = leaf_high;
        let low = Box::new(leaf_low);
        let high = Box::new(leaf_high);
        let t = IndexTree::Node(low, high);
        proof {
            assert(leaf_items(g0) == Multiset::<(u64, usize)>::empty().insert(p0));
            assert(leaf_items(g1) == Multiset::<(u64, usize)>::empty().insert(p1));
            assert(leaf_items(t) == leaf_items(g0).add(leaf_items(g1)));
            assert(has_empty_leaf(t) == (has_empty_leaf(g0) || has_empty_leaf(g1)));
        }
        t
    } else {
        let ghost all = items@;
        proof {
            lemma_div_non_zero(all.len() as int, 2);
        }
        let (lower, upper) = bvh_split_step(items);
        let ghost lo = lower@;
        let ghost hi = upper@;
        let left = build_index_tree(lower);
        let right = build_index_tree(upper);
        let ghost gl = left;
        let ghost gr = right;
        let low = Box::new(left);
        let high = Box::new(right);
        let t = IndexTree::Node(low, high);
        proof {
            lemma_multiset_commutative(lo, hi);
            assert(leaf_items(t) == leaf_items(gl).add(leaf_items(gr)));
        }
        t
    }
}

} // verus!
