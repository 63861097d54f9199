//! Axis-aligned pixel regions and the predicates the layout invariants use.

use vstd::prelude::*;

verus! {

/// An axis-aligned region of pixel space: `x..x+width` by `y..y+height`.
#[derive(Clone, Copy, PartialEq, Eq, Structural, Debug)]
pub struct Rect {
    pub x: u32,
    pub y: u32,
    pub width: u32,
    pub height: u32,
}

impl Rect {
    /// The region lies fully inside a canvas of the given size.
    pub open spec fn contained_in(self, canvas_width: u32, canvas_height: u32) -> bool {
        self.x + self.width <= canvas_width && self.y + self.height <= canvas_height
    }

    /// The region covers pixel `(x, y)`.
    pub open spec fn spec_contains(self, x: int, y: int) -> bool {
        self.x <= x < self.x + self.width && self.y <= y < self.y + self.height
    }

    /// The two regions share no pixel.
    pub open spec fn disjoint(self, other: Rect) -> bool {
        ||| self.x + self.width <= other.x
        ||| other.x + other.width <= self.x
        ||| self.y + self.height <= other.y
        ||| other.y + other.height <= self.y
    }
}

/// All rects of the sequence are pairwise disjoint.
pub open spec fn pairwise_disjoint(rects: Seq<Rect>) -> bool {
    forall|i: int, j: int|
        0 <= i < rects.len() && 0 <= j < rects.len() && i != j ==> #[trigger] rects[i].disjoint(
            #[trigger] rects[j],
        )
}

/// All rects of the sequence lie inside a canvas of the given size.
pub open spec fn all_contained(rects: Seq<Rect>, canvas_width: u32, canvas_height: u32) -> bool {
    forall|i: int| 0 <= i < rects.len() ==> #[trigger] rects[i].contained_in(
        canvas_width,
        canvas_height,
    )
}

} // verus!
