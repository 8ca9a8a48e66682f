use vstd::prelude::*;

verus! {

/// A rectangle of grid cells, `[min_x, max_x) x [min_y, max_y)`.
///
/// A rectangle with `max_x < min_x && max_y < min_y` is *clean*: it marks
/// that nothing is pending.
#[derive(Clone, Copy, PartialEq, Eq, Debug, Structural)]
pub struct DirtyRect {
    pub min_x: u32,
    pub max_x: u32,
    pub min_y: u32,
    pub max_y: u32,
}

impl DirtyRect {
    /// The clean sentinel.
    pub open spec fn clean(self) -> bool {
        self.max_x < self.min_x && self.max_y < self.min_y
    }

    /// The rectangle holds at least one cell.
    pub open spec fn is_box(self) -> bool {
        self.min_x < self.max_x && self.min_y < self.max_y
    }

    /// Cell `(x, y)` lies inside the rectangle.
    pub open spec fn covers(self, x: int, y: int) -> bool {
        self.min_x <= x < self.max_x && self.min_y <= y < self.max_y
    }

    /// The canonical clean rectangle of a `width` by `height` grid.
    pub open spec fn spec_clean_rect(width: u32, height: u32) -> DirtyRect {
        DirtyRect { min_x: width, min_y: height, max_x: 0, max_y: 0 }
    }

    /// The rectangle is the grid's clean sentinel or a non-empty box inside
    /// the grid.
    pub open spec fn wf(self, width: u32, height: u32) -> bool {
        ||| self == Self::spec_clean_rect(width, height)
        ||| (self.is_box() && self.max_x <= width && self.max_y <= height)
    }

    /// The smallest rectangle that holds both; a clean side adds nothing.
    pub open spec fn spec_union(self, other: DirtyRect) -> DirtyRect {
        if self.clean() {
            other
        } else if other.clean() {
            self
        } else {
            DirtyRect {
                min_x: if self.min_x <= other.min_x { self.min_x } else { other.min_x },
                max_x: if self.max_x >= other.max_x { self.max_x } else { other.max_x },
                min_y: if self.min_y <= other.min_y { self.min_y } else { other.min_y },
                max_y: if self.max_y >= other.max_y { self.max_y } else { other.max_y },
            }
        }
    }

    pub fn is_clean(&self) -> (r: bool)
        ensures
            r == self.clean(),
    {
        self.max_x < self.min_x && self.max_y < self.min_y
    }

    pub fn clean_rect(width: u32, height: u32) -> (r: DirtyRect)
        ensures
            r == Self::spec_clean_rect(width, height),
            width > 0 && height > 0 ==> r.clean(),
            width > 0 && height > 0 ==> forall|x: int, y: int| !r.covers(x, y),
    {
        DirtyRect { min_x: width, min_y: height, max_x: 0, max_y: 0 }
    }

    pub fn all_dirty(width: u32, height: u32) -> (r: DirtyRect)
        ensures
            r == (DirtyRect { min_x: 0, min_y: 0, max_x: width, max_y: height }),
            forall|x: int, y: int| r.covers(x, y) <==> (0 <= x < width && 0 <= y < height),
    {
        DirtyRect { min_x: 0, min_y: 0, max_x: width, max_y: height }
    }

    /// The running union of pending changes with one more rectangle.
    pub fn union(&self, other: &DirtyRect) -> (r: DirtyRect)
        ensures
            r == self.spec_union(*other),
    {
        if self.is_clean() {
            *other
        } else if other.is_clean() {
            *self
        } else {
            DirtyRect {
                min_x: if self.min_x <= other.min_x { self.min_x } else { other.min_x },
                max_x: if self.max_x >= other.max_x { self.max_x } else { other.max_x },
                min_y: if self.min_y <= other.min_y { self.min_y } else { other.min_y },
                max_y: if self.max_y >= other.max_y { self.max_y } else { other.max_y },
            }
        }
    }
}

/// The union of two well-formed rectangles of one grid is well formed and
/// covers every cell that either covers.
pub proof fn lemma_union_wf(a: DirtyRect, b: DirtyRect, width: u32, height: u32)
    requires
        width > 0,
        height > 0,
        a.wf(width, height),
        b.wf(width, height),
    ensures
        a.spec_union(b).wf(width, height),
        forall|x: int, y: int|
            a.covers(x, y) || b.covers(x, y) ==> #[trigger] a.spec_union(b).covers(x, y),
{
}

/// Union of pending rectangles does not depend on the order in which they
/// were added.
pub proof fn lemma_union_commutative(a: DirtyRect, b: DirtyRect, width: u32, height: u32)
    requires
        width > 0,
        height > 0,
        a.wf(width, height),
        b.wf(width, height),
    ensures
        a.spec_union(b) == b.spec_union(a),
{
}

/// Union of pending rectangles accumulates: grouping does not matter.
pub proof fn lemma_union_associative(
    a: DirtyRect,
    b: DirtyRect,
    c: DirtyRect,
    width: u32,
    height: u32,
)
    requires
        width > 0,
        height > 0,
        a.wf(width, height),
        b.wf(width, height),
        c.wf(width, height),
    ensures
        a.spec_union(b).spec_union(c) == a.spec_union(b.spec_union(c)),
{
}

} // verus!
