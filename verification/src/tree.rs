//! The tree: the branches built from the options last applied, and the rule
//! by which they are built again when the options change.

use crate::branch::{Branch, Turn};
use crate::options::{TreeOptions, MAX_LEVELS, MIN_LEVELS};
use crate::shape::{canopy, canopy_fits, subtree};
use vstd::arithmetic::power2::*;
use vstd::prelude::*;

verus! {

/// A tree together with the options it was built from.
pub struct Tree {
    last_options: TreeOptions,
    branches: Vec<Branch>,
}

impl View for Tree {
    type V = Seq<Branch>;

    /// The branches of the tree, in the order in which they were built.
    closed spec fn view(&self) -> Seq<Branch> {
        self.branches@
    }
}

impl Tree {
    /// The options that the branches were built from.
    pub closed spec fn last_options_spec(&self) -> TreeOptions {
        self.last_options
    }

    /// The branches are those of the options last applied, and these options
    /// are valid.
    pub open spec fn wf(&self) -> bool {
        &&& self.last_options_spec().valid()
        &&& self@ == canopy(self.last_options_spec().levels)
    }

    /// `nodes` is what `build_tree` returns for `options`. Of the options
    /// only the number of levels decides it.
    pub open spec fn built_from(options: TreeOptions, nodes: Seq<Branch>) -> bool {
        nodes == canopy(options.levels)
    }

    /// A tree built from `last` has to be built again for `current` exactly
    /// when the two differ in any field.
    pub open spec fn rebuild_needed(last: TreeOptions, current: TreeOptions) -> bool {
        last != current
    }

    /// What `update` does: handed `options`, it turns the tree `pre` into
    /// the tree `post` and returns `rebuilt`.
    pub open spec fn updates(pre: Tree, options: TreeOptions, post: Tree, rebuilt: bool) -> bool {
        &&& rebuilt == Self::rebuild_needed(pre.last_options_spec(), options)
        &&& post.last_options_spec() == options
        &&& post@ == if rebuilt {
            canopy(options.levels)
        } else {
            pre@
        }
    }

    /// A tree of `levels` levels, with the other options as
    /// `TreeOptions::new` sets them.
    pub fn new(levels: u32) -> (tree: Tree)
        requires
            MIN_LEVELS <= levels <= MAX_LEVELS,
        ensures
            tree.wf(),
            tree.last_options_spec() == TreeOptions::new_spec().with_levels_spec(levels),
            tree@ == canopy(levels),
    {
        let mut options = TreeOptions::new();
        options.levels = levels;
        Tree { last_options: options, branches: Self::build_tree(&options) }
    }

    /// The number of branches: `2^levels - 1` in a well-formed tree.
    pub fn number_of_branches(&self) -> (n: usize)
        ensures
            n == self@.len(),
            self.wf() ==> n == pow2(self.last_options_spec().levels as nat) - 1,
    {
        proof {
            if self.wf() {
                canopy_fits(self.last_options.levels);
            }
        }
        self.branches.len()
    }

    /// The branches, in the order in which they were built.
    pub fn branches(&self) -> (branches: &Vec<Branch>)
        ensures
            branches@ == self@,
    {
        &self.branches
    }

    /// The options that the branches were built from.
    pub fn last_options(&self) -> (options: TreeOptions)
        ensures
            options == self.last_options_spec(),
    {
        self.last_options
    }

    /// Applies `options`: builds the branches again if `options` differ from
    /// those last applied, keeps them as they are if not, and remembers
    /// `options` as the ones last applied. Returns whether it built.
    pub fn update(&mut self, options: TreeOptions) -> (rebuilt: bool)
        requires
            old(self).wf(),
            options.valid(),
        ensures
            final(self).wf(),
            Self::updates(*old(self), options, *final(self), rebuilt),
    {
        let rebuilt = options != self.last_options;
        if rebuilt {
            self.branches = Self::build_tree(&options);
        }
        self.last_options = options;
        rebuilt
    }

    /// Builds the branches for `options`: the root, then all that grows from
    /// it, in depth-first pre-order.
    pub fn build_tree(options: &TreeOptions) -> (nodes: Vec<Branch>)
        requires
            options.valid(),
        ensures
            Self::built_from(*options, nodes@),
            nodes@.len() == pow2(options.levels as nat) - 1,
            nodes@[0] == Branch::root_spec(),
    {
        let mut nodes: Vec<Branch> = Vec::new();
        let start_node = Branch::root();
        Self::continue_tree(start_node, options, &mut nodes);
        proof {
            canopy_fits(options.levels);
        }
        nodes
    }

    /// Appends `current_node` and all that grows from it to `nodes`.
    fn continue_tree(current_node: Branch, options: &TreeOptions, nodes: &mut Vec<Branch>)
        requires
            current_node.level < options.levels,
        ensures
            final(nodes)@ == old(nodes)@ + subtree(
                current_node,
                old(nodes)@.len(),
                options.levels,
            ),
        decreases options.levels - current_node.level,
    {
        let at = nodes.len();
        nodes.push(current_node);

        if current_node.level == options.levels - 1 {
            return ;
        }
        let ghost stem = nodes@;
        Self::continue_tree(current_node.child(at, Turn::Minus), options, nodes);
        let ghost half = nodes@;
        Self::continue_tree(current_node.child(at, Turn::Plus), options, nodes);
        proof {
            let first = subtree(
                current_node.child_spec(at as nat, Turn::Minus),
                (at + 1) as nat,
                options.levels,
            );
            assert(half == stem + first);
            assert(nodes@ =~= old(nodes)@ + subtree(current_node, at as nat, options.levels));
        }
    }
}

/// Building is a function of the options, and of their number of levels
/// alone: whatever `build_tree` returns for two sets of options with the same
/// number of levels is one and the same sequence of branches.
pub proof fn build_tree_is_pure(
    first: TreeOptions,
    second: TreeOptions,
    first_nodes: Seq<Branch>,
    second_nodes: Seq<Branch>,
)
    requires
        first.levels == second.levels,
        Tree::built_from(first, first_nodes),
        Tree::built_from(second, second_nodes),
    ensures
        first_nodes == second_nodes,
{
}

/// A tree is built again only on a change: an `update` that is handed the
/// options last applied does not build, and leaves the tree as it is.
pub proof fn update_without_change(pre: Tree, options: TreeOptions, post: Tree, rebuilt: bool)
    requires
        Tree::updates(pre, options, post, rebuilt),
        options == pre.last_options_spec(),
    ensures
        !rebuilt,
        post@ == pre@,
        post.last_options_spec() == pre.last_options_spec(),
{
}

/// Applying options is idempotent: of two `update`s in a row with the same
/// options, whatever the tree was before, the second does not build and
/// leaves the tree as the first left it. The first builds exactly when the
/// options differ from those applied before it.
pub proof fn update_twice(
    pre: Tree,
    options: TreeOptions,
    between: Tree,
    first_rebuilt: bool,
    post: Tree,
    second_rebuilt: bool,
)
    requires
        Tree::updates(pre, options, between, first_rebuilt),
        Tree::updates(between, options, post, second_rebuilt),
    ensures
        !second_rebuilt,
        post@ == between@,
        post.last_options_spec() == between.last_options_spec(),
        first_rebuilt <==> pre.last_options_spec() != options,
{
}

} // verus!
