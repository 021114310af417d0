//! The branch: one straight segment of the tree, described relative to the
//! branch it grows from.
//!
//! A branch carries no coordinates. Its place in the plane follows from its
//! level and from the chain of parents that leads back to the root, so a
//! renderer can lay the tree out in whatever arithmetic it draws with.

use vstd::prelude::*;

verus! {

/// The side to which a child leaves the tip of its parent.
///
/// With the parent's heading `h` and the angle between parent and child `a`,
/// a `Minus` child has heading `h - a` and a `Plus` child has heading `h + a`.
#[derive(Clone, Copy, Debug, PartialEq, Eq, Structural)]
pub enum Turn {
    Minus,
    Plus,
}

/// Where a branch starts.
#[derive(Clone, Copy, Debug, PartialEq, Eq, Structural)]
pub enum Stem {
    /// The branch starts at the logical origin and points straight up.
    Root,
    /// The branch starts at the tip of the branch that stands at index
    /// `parent` of the same sequence, and leaves it to the side `turn`.
    Child { parent: usize, turn: Turn },
}

/// One segment of the tree.
///
/// A branch of level `k` is `k` contractions shorter and thinner than the
/// root: its length is the root's length times the length contraction to the
/// power `k`, and likewise for its stroke width.
#[derive(Clone, Copy, Debug, PartialEq, Eq, Structural)]
pub struct Branch {
    /// Depth at which the branch was created; the root has level 0.
    pub level: u32,
    /// Where the branch starts.
    pub stem: Stem,
}

impl Branch {
    /// The root of every tree.
    pub open spec fn root_spec() -> Branch {
        Branch { level: 0, stem: Stem::Root }
    }

    /// The child that leaves `self` to the side `turn`, where `self` stands
    /// at index `at` of the sequence.
    pub open spec fn child_spec(self, at: nat, turn: Turn) -> Branch {
        Branch {
            level: (self.level + 1) as u32,
            stem: Stem::Child { parent: at as usize, turn },
        }
    }

    /// Whether this branch is a root.
    pub open spec fn is_root(self) -> bool {
        self.stem == Stem::Root
    }

    /// The index of the parent, for a branch that has one.
    pub open spec fn parent_spec(self) -> Option<usize> {
        match self.stem {
            Stem::Root => None,
            Stem::Child { parent, turn } => Some(parent),
        }
    }

    /// The side to which the branch left its parent, for a branch that has
    /// one.
    pub open spec fn turn_spec(self) -> Option<Turn> {
        match self.stem {
            Stem::Root => None,
            Stem::Child { parent, turn } => Some(turn),
        }
    }

    /// The root of every tree.
    pub fn root() -> (branch: Branch)
        ensures
            branch == Branch::root_spec(),
    {
        Branch { level: 0, stem: Stem::Root }
    }

    /// The child that leaves `self` to the side `turn`, where `self` stands
    /// at index `at` of the sequence.
    pub fn child(&self, at: usize, turn: Turn) -> (branch: Branch)
        requires
            self.level < u32::MAX,
        ensures
            branch == self.child_spec(at as nat, turn),
            branch.level == self.level + 1,
            branch.stem == (Stem::Child { parent: at, turn }),
    {
        Branch { level: self.level + 1, stem: Stem::Child { parent: at, turn } }
    }

    /// The index of the parent; `None` for a root.
    pub fn parent(&self) -> (parent: Option<usize>)
        ensures
            parent == self.parent_spec(),
    {
        match self.stem {
            Stem::Root => None,
            Stem::Child { parent, turn: _ } => Some(parent),
        }
    }

    /// The side to which the branch left its parent; `None` for a root.
    pub fn turn(&self) -> (turn: Option<Turn>)
        ensures
            turn == self.turn_spec(),
    {
        match self.stem {
            Stem::Root => None,
            Stem::Child { parent: _, turn } => Some(turn),
        }
    }
}

} // verus!
