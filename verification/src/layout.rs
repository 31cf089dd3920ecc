//! Computed geometry per node.

use vstd::prelude::*;

verus! {

/// The most recently computed geometry of one node: location relative to the
/// parent's content-box origin, border-box size, and the resolved padding and
/// border per edge, all in the same integer units as the style inputs.
#[derive(Clone, Copy, Debug, PartialEq, Eq, Structural)]
pub struct ComputedLayout {
    pub x: i64,
    pub y: i64,
    pub width: i64,
    pub height: i64,
    pub padding_top: i64,
    pub padding_right: i64,
    pub padding_bottom: i64,
    pub padding_left: i64,
    pub border_top: i64,
    pub border_right: i64,
    pub border_bottom: i64,
    pub border_left: i64,
}

impl ComputedLayout {
    /// The zero-filled geometry: what a node reports before any computation
    /// has included it, and what excluded (display-none) subtrees report.
    pub open spec fn spec_zero() -> ComputedLayout {
        ComputedLayout {
            x: 0,
            y: 0,
            width: 0,
            height: 0,
            padding_top: 0,
            padding_right: 0,
            padding_bottom: 0,
            padding_left: 0,
            border_top: 0,
            border_right: 0,
            border_bottom: 0,
            border_left: 0,
        }
    }

    pub fn zero() -> (r: ComputedLayout)
        ensures
            r == ComputedLayout::spec_zero(),
    {
        ComputedLayout {
            x: 0,
            y: 0,
            width: 0,
            height: 0,
            padding_top: 0,
            padding_right: 0,
            padding_bottom: 0,
            padding_left: 0,
            border_top: 0,
            border_right: 0,
            border_bottom: 0,
            border_left: 0,
        }
    }
}

} // verus!
