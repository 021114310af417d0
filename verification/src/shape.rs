//! The shape of a tree: which branches it has, and in which order.
//!
//! A tree of `levels` levels is a full binary tree in depth-first pre-order:
//! a branch stands before its children, and the whole subtree of its `Minus`
//! child stands before that of its `Plus` child.

use crate::branch::{Branch, Stem, Turn};
use crate::options::{MAX_LEVELS, MIN_LEVELS};
use vstd::arithmetic::power2::*;
use vstd::prelude::*;

verus! {

/// The number of branches in the subtree of a branch of level `level`, in a
/// tree of `levels` levels: `2^(levels - level) - 1`.
pub open spec fn span(level: nat, levels: nat) -> nat {
    if level < levels {
        (pow2((levels - level) as nat) - 1) as nat
    } else {
        0
    }
}

/// The subtree of `node` in a tree of `levels` levels, where `node` stands at
/// index `at` of the whole sequence: `node`, then the subtree of its `Minus`
/// child, then that of its `Plus` child. A branch of level `levels - 1` is a
/// leaf.
pub open spec fn subtree(node: Branch, at: nat, levels: u32) -> Seq<Branch>
    decreases levels - node.level,
{
    if node.level + 1 >= levels {
        seq![node]
    } else {
        let first = subtree(node.child_spec(at, Turn::Minus), at + 1, levels);
        let second = subtree(node.child_spec(at, Turn::Plus), at + 1 + first.len(), levels);
        seq![node] + first + second
    }
}

/// The tree of `levels` levels: the subtree of the root.
pub open spec fn canopy(levels: u32) -> Seq<Branch> {
    subtree(Branch::root_spec(), 0, levels)
}

/// A subtree has `span` branches.
pub proof fn lemma_subtree_len(node: Branch, at: nat, levels: u32)
    requires
        node.level < levels,
    ensures
        subtree(node, at, levels).len() == span(node.level as nat, levels as nat),
        subtree(node, at, levels).len() >= 1,
    decreases levels - node.level,
{
    lemma_pow2_unfold((levels - node.level) as nat);
    lemma_pow2_pos((levels - node.level - 1) as nat);
    if node.level + 1 >= levels {
        lemma2_to64();
    } else {
        let minus = node.child_spec(at, Turn::Minus);
        let first = subtree(minus, at + 1, levels);
        lemma_subtree_len(minus, at + 1, levels);
        lemma_subtree_len(node.child_spec(at, Turn::Plus), at + 1 + first.len(), levels);
    }
}

/// How far behind its parent a child stands: the `Minus` child directly
/// behind it, the `Plus` child behind the whole subtree of the `Minus` child.
/// `level` is the parent's level.
pub open spec fn child_offset(turn: Turn, level: nat, levels: nat) -> nat {
    match turn {
        Turn::Minus => 1,
        Turn::Plus => pow2((levels - 1 - level) as nat),
    }
}

/// Branch `i` of `s` names an earlier branch of `s` as its parent, lies one
/// level above it and stands where that parent's child stands. The first
/// branch of `s` has index `at` in the whole sequence.
pub open spec fn hangs(s: Seq<Branch>, at: nat, levels: u32, i: int) -> bool {
    match s[i].stem {
        Stem::Root => false,
        Stem::Child { parent, turn } => {
            let k = parent - at;
            &&& 0 <= k < i
            &&& s[k].level + 1 == s[i].level
            &&& i == k + child_offset(turn, s[k].level as nat, levels as nat)
        },
    }
}

/// Branch `k` of `s`, unless it is a leaf, is followed by its two children
/// at their places. The first branch of `s` has index `at` in the whole
/// sequence.
pub open spec fn bears(s: Seq<Branch>, at: nat, levels: u32, k: int) -> bool {
    s[k].level + 1 < levels ==> {
        let far = k + child_offset(Turn::Plus, s[k].level as nat, levels as nat);
        &&& k + 1 < far < s.len()
        &&& s[k + 1] == s[k].child_spec((at + k) as nat, Turn::Minus)
        &&& s[far] == s[k].child_spec((at + k) as nat, Turn::Plus)
    }
}

/// A subtree starts with its root; all its branches have a level from the
/// root's up to `levels - 1`; every branch behind the root hangs from an
/// earlier one; and every branch bears its children.
pub proof fn lemma_subtree_links(node: Branch, at: nat, levels: u32)
    requires
        node.level < levels,
        at + span(node.level as nat, levels as nat) <= usize::MAX,
    ensures
        subtree(node, at, levels)[0] == node,
        forall|i: int|
            0 <= i < subtree(node, at, levels).len() ==> node.level <= (#[trigger] subtree(
                node,
                at,
                levels,
            )[i]).level < levels,
        forall|i: int|
            0 < i < subtree(node, at, levels).len() ==> #[trigger] hangs(
                subtree(node, at, levels),
                at,
                levels,
                i,
            ),
        forall|k: int|
            0 <= k < subtree(node, at, levels).len() ==> #[trigger] bears(
                subtree(node, at, levels),
                at,
                levels,
                k,
            ),
    decreases levels - node.level,
{
    let s = subtree(node, at, levels);
    lemma_subtree_len(node, at, levels);
    if node.level + 1 < levels {
        let minus = node.child_spec(at, Turn::Minus);
        let plus = node.child_spec(at, Turn::Plus);
        let first = subtree(minus, at + 1, levels);
        let mid = at + 1 + first.len();
        let second = subtree(plus, mid, levels);
        let m = first.len() as int;
        lemma_pow2_unfold((levels - node.level) as nat);
        lemma_pow2_pos((levels - node.level - 1) as nat);
        lemma_subtree_len(minus, at + 1, levels);
        lemma_subtree_len(plus, mid, levels);
        lemma_subtree_links(minus, at + 1, levels);
        lemma_subtree_links(plus, mid, levels);
        assert(s =~= seq![node] + first + second);
        assert(m + 1 == child_offset(Turn::Plus, node.level as nat, levels as nat));
        assert forall|i: int| 0 <= i < s.len() implies node.level <= (#[trigger] s[i]).level
            < levels by {
            if 1 <= i <= m {
                assert(s[i] == first[i - 1]);
            } else if i > m {
                assert(s[i] == second[i - 1 - m]);
            }
        }
        assert forall|i: int| 0 < i < s.len() implies #[trigger] hangs(s, at, levels, i) by {
            if i == 1 {
                assert(s[i] == minus);
            } else if i <= m {
                assert(s[i] == first[i - 1]);
                assert(hangs(first, at + 1, levels, i - 1));
                let k = s[i].parent_spec().unwrap() - at;
                assert(s[k] == first[k - 1]);
            } else if i == m + 1 {
                assert(s[i] == plus);
            } else {
                assert(s[i] == second[i - 1 - m]);
                assert(hangs(second, mid, levels, i - 1 - m));
                let k = s[i].parent_spec().unwrap() - at;
                assert(s[k] == second[k - 1 - m]);
            }
        }
        assert forall|k: int| 0 <= k < s.len() implies #[trigger] bears(s, at, levels, k) by {
            if k == 0 {
                assert(s[1] == minus);
                assert(s[m + 1] == plus);
            } else if k <= m {
                assert(s[k] == first[k - 1]);
                assert(bears(first, at + 1, levels, k - 1));
                if s[k].level + 1 < levels {
                    let far = k + child_offset(Turn::Plus, s[k].level as nat, levels as nat);
                    assert(s[k + 1] == first[k]);
                    assert(s[far] == first[far - 1]);
                }
            } else {
                assert(s[k] == second[k - 1 - m]);
                assert(bears(second, mid, levels, k - 1 - m));
                if s[k].level + 1 < levels {
                    let far = k + child_offset(Turn::Plus, s[k].level as nat, levels as nat);
                    assert(s[k + 1] == second[k - m]);
                    assert(s[far] == second[far - 1 - m]);
                }
            }
        }
    }
}

/// Branch `p` of `s` is the parent of branch `i`: it stands before `i`, is
/// the branch that `i` names as its parent, and lies one level below `i`.
pub open spec fn is_parent(s: Seq<Branch>, p: int, i: int) -> bool {
    &&& 0 <= p < i < s.len()
    &&& s[i].parent_spec() matches Some(named) && named == p
    &&& s[i].level == s[p].level + 1
}

/// A tree of `levels` levels has exactly `2^levels - 1` branches.
pub proof fn canopy_len(levels: u32)
    requires
        levels >= 1,
    ensures
        canopy(levels).len() == pow2(levels as nat) - 1,
        canopy(levels).len() >= 1,
{
    lemma_pow2_pos(levels as nat);
    lemma_subtree_len(Branch::root_spec(), 0, levels);
}

/// A tree of a valid number of levels has at most `2^20 - 1` branches, so
/// that every index into it fits the machine's word.
pub proof fn canopy_fits(levels: u32)
    requires
        MIN_LEVELS <= levels <= MAX_LEVELS,
    ensures
        canopy(levels).len() == pow2(levels as nat) - 1,
        1 <= canopy(levels).len() <= 0xF_FFFF,
        canopy(levels).len() <= usize::MAX,
{
    canopy_len(levels);
    lemma2_to64();
    if levels < MAX_LEVELS {
        lemma_pow2_strictly_increases(levels as nat, MAX_LEVELS as nat);
    }
}

/// A tree starts with the root, and no other of its branches is a root.
pub proof fn canopy_starts_with_root(levels: u32)
    requires
        MIN_LEVELS <= levels <= MAX_LEVELS,
    ensures
        canopy(levels).len() >= 1,
        canopy(levels)[0] == Branch::root_spec(),
        forall|i: int|
            0 <= i < canopy(levels).len() ==> ((#[trigger] canopy(levels)[i]).is_root() <==> i
                == 0),
{
    let s = canopy(levels);
    canopy_fits(levels);
    lemma_subtree_links(Branch::root_spec(), 0, levels);
    assert forall|i: int| 0 <= i < s.len() implies ((#[trigger] s[i]).is_root() <==> i == 0) by {
        if i > 0 {
            assert(hangs(s, 0, levels, i));
        }
    }
}

/// Every branch of a tree has a level below `levels`.
pub proof fn canopy_levels(levels: u32, i: int)
    requires
        MIN_LEVELS <= levels <= MAX_LEVELS,
        0 <= i < canopy(levels).len(),
    ensures
        canopy(levels)[i].level < levels,
{
    canopy_fits(levels);
    lemma_subtree_links(Branch::root_spec(), 0, levels);
}

/// Every branch of a tree but the root has exactly one parent, which the
/// result names: of the branches before it that one which it grew from.
pub proof fn canopy_parent(levels: u32, i: int) -> (p: int)
    requires
        MIN_LEVELS <= levels <= MAX_LEVELS,
        0 < i < canopy(levels).len(),
    ensures
        is_parent(canopy(levels), p, i),
        forall|q: int| is_parent(canopy(levels), q, i) ==> q == p,
{
    let s = canopy(levels);
    canopy_fits(levels);
    lemma_subtree_links(Branch::root_spec(), 0, levels);
    assert(hangs(s, 0, levels, i));
    s[i].parent_spec().unwrap() as int
}

/// Every branch of a tree below the last level has exactly two children: its
/// `Minus` child directly behind it, and its `Plus` child
/// `2^(levels - 1 - level)` places behind it. A branch of the last level has
/// none.
pub proof fn canopy_children(levels: u32, p: int)
    requires
        MIN_LEVELS <= levels <= MAX_LEVELS,
        0 <= p < canopy(levels).len(),
    ensures
        canopy(levels)[p].level < levels,
        canopy(levels)[p].level + 1 < levels ==> {
            let s = canopy(levels);
            let far = p + pow2((levels - 1 - s[p].level) as nat);
            &&& p + 1 < far
            &&& is_parent(s, p, p + 1)
            &&& s[p + 1].turn_spec() == Some(Turn::Minus)
            &&& is_parent(s, p, far)
            &&& s[far].turn_spec() == Some(Turn::Plus)
        },
        forall|i: int| #[trigger]
            is_parent(canopy(levels), p, i) ==> {
                &&& canopy(levels)[p].level + 1 < levels
                &&& (i == p + 1 || i == p + pow2((levels - 1 - canopy(levels)[p].level) as nat))
            },
{
    let s = canopy(levels);
    canopy_fits(levels);
    lemma_subtree_links(Branch::root_spec(), 0, levels);
    assert(bears(s, 0, levels, p));
    assert forall|i: int| #[trigger] is_parent(s, p, i) implies {
        &&& s[p].level + 1 < levels
        &&& (i == p + 1 || i == p + pow2((levels - 1 - s[p].level) as nat))
    } by {
        assert(hangs(s, 0, levels, i));
    }
}

} // verus!
