//! Cells and their sizing policies.
//!
//! A cell is an independently sizable visual element. The engine reads from a
//! cell only its per-axis sizing policy and a measure operation: given a
//! maximum width and height, the cell reports the size it requires. Measuring
//! is a pure function of the bounds and may be repeated under different
//! bounds; the engine remeasures every cell once column widths are final.

use vstd::prelude::*;
use crate::px::Px;

verus! {

/// How a cell or a column wants to be sized along one axis.
///
/// `Fill(f)` declares a fill factor `f`: the cell wants a share of the
/// leftover space along that axis proportional to `f`.
#[derive(Clone, Copy, PartialEq, Eq, Structural, Debug)]
pub enum Policy {
    Shrink,
    Fixed(Px),
    Fill(u16),
}

impl Policy {
    pub open spec fn spec_fill_factor(self) -> u16 {
        match self {
            Policy::Fill(f) => f,
            _ => 0,
        }
    }

    pub fn fill_factor(self) -> (f: u16)
        ensures
            f == self.spec_fill_factor(),
    {
        match self {
            Policy::Fill(f) => f,
            _ => 0,
        }
    }

    pub open spec fn spec_is_fill(self) -> bool {
        self is Fill
    }

    pub fn is_fill(self) -> (r: bool)
        ensures
            r == self.spec_is_fill(),
    {
        matches!(self, Policy::Fill(_))
    }

    pub open spec fn wf(self) -> bool {
        match self {
            Policy::Fixed(w) => w.wf(),
            _ => true,
        }
    }
}

/// A width and a height.
#[derive(Clone, Copy, PartialEq, Eq, Structural, Debug)]
pub struct PxSize {
    pub width: Px,
    pub height: Px,
}

impl PxSize {
    pub open spec fn wf(self) -> bool {
        self.width.wf() && self.height.wf()
    }

    pub fn new(width: Px, height: Px) -> (r: PxSize)
        ensures
            r == (PxSize { width, height }),
    {
        PxSize { width, height }
    }
}

/// An axis-aligned rectangle: the box given to a cell, or a separator line.
#[derive(Clone, Copy, PartialEq, Eq, Structural, Debug)]
pub struct Rect {
    pub x: Px,
    pub y: Px,
    pub width: Px,
    pub height: Px,
}

/// Horizontal alignment of a cell's content within its column box.
#[derive(Clone, Copy, PartialEq, Eq, Structural, Debug)]
pub enum HAlign {
    Left,
    Center,
    Right,
}

/// Vertical alignment of a cell's content within its row box.
#[derive(Clone, Copy, PartialEq, Eq, Structural, Debug)]
pub enum VAlign {
    Top,
    Center,
    Bottom,
}

/// The capability interface through which the engine sees a cell.
///
/// `spec_measure` is the mathematical meaning of `measure`: measuring is a
/// pure function of the cell and the bounds, so laying the same cells out
/// twice under the same constraints yields identical results.
pub trait Cell: Sized {
    /// Well-formedness of the cell's own data.
    spec fn inv(&self) -> bool;

    spec fn spec_width_policy(&self) -> Policy;

    spec fn spec_height_policy(&self) -> Policy;

    spec fn spec_measure(&self, width_bound: Px, height_bound: Px) -> PxSize;

    fn width_policy(&self) -> (p: Policy)
        requires
            self.inv(),
        ensures
            p == self.spec_width_policy(),
    ;

    fn height_policy(&self) -> (p: Policy)
        requires
            self.inv(),
        ensures
            p == self.spec_height_policy(),
    ;

    /// Reports the size the cell requires when given at most `width_bound`
    /// by `height_bound`. Bounds may be negative under over-constrained
    /// input; the engine clamps the reported size, never the cell.
    fn measure(&self, width_bound: Px, height_bound: Px) -> (s: PxSize)
        requires
            self.inv(),
            width_bound.wf(),
            height_bound.wf(),
        ensures
            s == self.spec_measure(width_bound, height_bound),
            s.wf(),
    ;
}

/// A cell with a fixed intrinsic content size.
///
/// Along an axis it shrinks to its intrinsic size (never exceeding the
/// bound), takes exactly a fixed length, or fills the whole bound when its
/// policy declares a fill factor.
#[derive(Clone, Copy, PartialEq, Eq, Structural, Debug)]
pub struct FixedCell {
    pub intrinsic: PxSize,
    pub policy_x: Policy,
    pub policy_y: Policy,
}

impl FixedCell {
    pub fn new(intrinsic: PxSize, policy_x: Policy, policy_y: Policy) -> (r: FixedCell)
        ensures
            r == (FixedCell { intrinsic, policy_x, policy_y }),
    {
        FixedCell { intrinsic, policy_x, policy_y }
    }

    /// A shrink-to-content cell of the given intrinsic size.
    pub fn shrink(intrinsic: PxSize) -> (r: FixedCell)
        ensures
            r == (FixedCell { intrinsic, policy_x: Policy::Shrink, policy_y: Policy::Shrink }),
    {
        FixedCell { intrinsic, policy_x: Policy::Shrink, policy_y: Policy::Shrink }
    }

    pub open spec fn spec_axis(policy: Policy, intrinsic: Px, bound: Px) -> Px {
        match policy {
            Policy::Fill(_) => Px::spec_max0(bound),
            Policy::Fixed(w) => w,
            Policy::Shrink => Px::spec_min(intrinsic, Px::spec_max0(bound)),
        }
    }

    fn axis(policy: Policy, intrinsic: Px, bound: Px) -> (r: Px)
        ensures
            r == FixedCell::spec_axis(policy, intrinsic, bound),
    {
        match policy {
            Policy::Fill(_) => bound.max0(),
            Policy::Fixed(w) => w,
            Policy::Shrink => intrinsic.min(bound.max0()),
        }
    }
}

impl Cell for FixedCell {
    open spec fn inv(&self) -> bool {
        self.intrinsic.wf() && self.policy_x.wf() && self.policy_y.wf()
    }

    open spec fn spec_width_policy(&self) -> Policy {
        self.policy_x
    }

    open spec fn spec_height_policy(&self) -> Policy {
        self.policy_y
    }

    open spec fn spec_measure(&self, width_bound: Px, height_bound: Px) -> PxSize {
        PxSize {
            width: FixedCell::spec_axis(self.policy_x, self.intrinsic.width, width_bound),
            height: FixedCell::spec_axis(self.policy_y, self.intrinsic.height, height_bound),
        }
    }

    fn width_policy(&self) -> (p: Policy) {
        self.policy_x
    }

    fn height_policy(&self) -> (p: Policy) {
        self.policy_y
    }

    fn measure(&self, width_bound: Px, height_bound: Px) -> (s: PxSize) {
        PxSize {
            width: FixedCell::axis(self.policy_x, self.intrinsic.width, width_bound),
            height: FixedCell::axis(self.policy_y, self.intrinsic.height, height_bound),
        }
    }
}

} // verus!
