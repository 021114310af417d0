//! The options that shape a tree.
//!
//! Every real-valued option is carried as the bit pattern of a
//! single-precision IEEE-754 number. Among such patterns those from
//! `0x0000_0000` (zero) up to `0x7F80_0000` (infinity) stand for the
//! non-negative numbers, in increasing order, so that a range `0..=top` of
//! reals is the range `0..=top` of patterns. Negative zero and the
//! not-a-number patterns lie outside every such range; on the patterns inside,
//! two numbers are equal exactly when their patterns are.

use vstd::prelude::*;

verus! {

/// The smallest number of levels a tree can have.
pub const MIN_LEVELS: u32 = 1;

/// The largest number of levels a tree can have. It bounds the depth of the
/// builder's recursion, and the number of branches by `2^20 - 1`.
pub const MAX_LEVELS: u32 = 20;

/// The pattern of 0.5.
pub const HALF: u32 = 0x3F00_0000;

/// The pattern of 0.9, rounded to the nearest single-precision number.
pub const NINE_TENTHS: u32 = 0x3F66_6666;

/// The pattern of 1.
pub const ONE: u32 = 0x3F80_0000;

/// The pattern of 5.
pub const FIVE: u32 = 0x40A0_0000;

/// The pattern of pi, rounded to the nearest single-precision number.
pub const PI: u32 = 0x4049_0FDB;

/// The pattern of a quarter of `PI`.
pub const QUARTER_PI: u32 = 0x3F49_0FDB;

/// The options of one tree. Two sets of options are equal when every field
/// is.
#[derive(Clone, Copy, Debug, PartialEq, Eq, Structural)]
pub struct TreeOptions {
    /// Number of levels of the tree, from `MIN_LEVELS` to `MAX_LEVELS`; the
    /// branches have the levels `0` to `levels - 1`.
    pub levels: u32,
    /// Stroke width of the root, a pattern from zero to `FIVE`.
    pub base_width: u32,
    /// Length of the root, a pattern from zero to `ONE`.
    pub base_length: u32,
    /// Angle between a parent and each of its children, a pattern from zero
    /// to `PI`.
    pub angle_diff: u32,
    /// Factor by which a child is shorter than its parent, a pattern from
    /// zero to `ONE`.
    pub length_contraction: u32,
    /// Factor by which a child is thinner than its parent, a pattern from
    /// zero to `ONE`.
    pub width_contraction: u32,
    /// Whether the strokes vary in colour. The tree does not depend on it,
    /// and a renderer is free to ignore it; it takes part in equality like
    /// every other field.
    pub colored: bool,
}

impl TreeOptions {
    /// The options a tree starts with.
    pub open spec fn new_spec() -> TreeOptions {
        TreeOptions {
            levels: 4,
            base_width: ONE,
            base_length: HALF,
            angle_diff: QUARTER_PI,
            length_contraction: HALF,
            width_contraction: NINE_TENTHS,
            colored: true,
        }
    }

    /// Every option lies in its range.
    pub open spec fn valid(self) -> bool {
        &&& MIN_LEVELS <= self.levels <= MAX_LEVELS
        &&& self.base_width <= FIVE
        &&& self.base_length <= ONE
        &&& self.angle_diff <= PI
        &&& self.length_contraction <= ONE
        &&& self.width_contraction <= ONE
    }

    /// These options with another number of levels.
    pub open spec fn with_levels_spec(self, levels: u32) -> TreeOptions {
        TreeOptions { levels, ..self }
    }

    /// The options a tree starts with: four levels, a root of width 1 and
    /// length 0.5, children at a quarter of pi from their parent, half as
    /// long and nine tenths as wide, coloured.
    pub fn new() -> (options: TreeOptions)
        ensures
            options == TreeOptions::new_spec(),
            options.valid(),
    {
        TreeOptions {
            levels: 4,
            base_width: ONE,
            base_length: HALF,
            angle_diff: QUARTER_PI,
            length_contraction: HALF,
            width_contraction: NINE_TENTHS,
            colored: true,
        }
    }

    /// Whether every option lies in its range.
    pub fn is_valid(&self) -> (valid: bool)
        ensures
            valid == self.valid(),
    {
        MIN_LEVELS <= self.levels && self.levels <= MAX_LEVELS && self.base_width <= FIVE
            && self.base_length <= ONE && self.angle_diff <= PI && self.length_contraction <= ONE
            && self.width_contraction <= ONE
    }
}

} // verus!
