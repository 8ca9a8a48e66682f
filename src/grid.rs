use vstd::prelude::*;
use vstd::arithmetic::div_mod::{lemma_fundamental_div_mod, lemma_fundamental_div_mod_converse};
use vstd::arithmetic::mul::lemma_mul_is_commutative;

use crate::double_buffer::copy_cells;
use crate::rect::DirtyRect;

verus! {

/// Position of cell `(x, y)` in a row-major buffer `width` cells wide.
pub open spec fn cell_index(x: int, y: int, width: int) -> int {
    y * width + x
}

/// `buf` with every cell that `rect` covers taken from `src`.
pub open spec fn copy_region<T>(buf: Seq<T>, src: Seq<T>, rect: DirtyRect, width: int) -> Seq<T> {
    Seq::new(
        buf.len(),
        |i: int| if rect.covers(i % width, i / width) { src[i] } else { buf[i] },
    )
}

/// `src` with each row reversed.
pub open spec fn mirror_rows<T>(src: Seq<T>, width: int) -> Seq<T> {
    Seq::new(
        src.len(),
        |i: int| src[cell_index(width - 1 - i % width, i / width, width)],
    )
}

/// The state of a [`PointDataStore`].
pub struct GridModel<T> {
    pub width: u32,
    pub height: u32,
    /// Every change since creation, the current frame included.
    pub write: Seq<T>,
    /// The cells as of the last flush.
    pub read: Seq<T>,
    /// Bounding box of the cells changed since the last flush.
    pub dirty: DirtyRect,
    /// The rectangle that the last flush copied.
    pub last_dirty: DirtyRect,
}

impl<T> GridModel<T> {
    pub open spec fn size(self) -> int {
        self.width * self.height
    }

    pub open spec fn in_grid(self, x: int, y: int) -> bool {
        0 <= x < self.width && 0 <= y < self.height
    }

    pub open spec fn index(self, x: int, y: int) -> int {
        cell_index(x, y, self.width as int)
    }

    /// Outside the dirty rectangle the two buffers agree: `read` lags
    /// `write` only where changes are pending.
    pub open spec fn wf(self) -> bool {
        &&& self.width > 0
        &&& self.height > 0
        &&& self.write.len() == self.size()
        &&& self.read.len() == self.size()
        &&& self.dirty.wf(self.width, self.height)
        &&& self.last_dirty.wf(self.width, self.height)
        &&& forall|i: int|
            0 <= i < self.size() && !self.dirty.covers(i % self.width as int, i / self.width as int)
                ==> #[trigger] self.read[i] == self.write[i]
    }

    /// A grid whose two buffers both hold `data`, with nothing pending.
    pub open spec fn fresh(data: Seq<T>, width: u32, height: u32) -> GridModel<T> {
        GridModel {
            width,
            height,
            write: data,
            read: data,
            dirty: DirtyRect::spec_clean_rect(width, height),
            last_dirty: DirtyRect::spec_clean_rect(width, height),
        }
    }

    /// The read-buffer cell at `(x, y)`, if it lies in the grid.
    pub open spec fn neighbor(self, x: int, y: int) -> Option<T> {
        if self.in_grid(x, y) {
            Some(self.read[self.index(x, y)])
        } else {
            None
        }
    }

    /// `rect` added to the pending changes.
    pub open spec fn marked(self, rect: DirtyRect) -> GridModel<T> {
        GridModel { dirty: self.dirty.spec_union(rect), ..self }
    }

    /// The pending rectangle copied from `write` to `read`, and recorded as
    /// the last one flushed.
    pub open spec fn flushed(self) -> GridModel<T> {
        GridModel {
            read: copy_region(self.read, self.write, self.dirty, self.width as int),
            dirty: DirtyRect::spec_clean_rect(self.width, self.height),
            last_dirty: self.dirty,
            ..self
        }
    }

    /// Every row of `write` replaced by the mirrored row of `read`, the whole
    /// grid pending.
    pub open spec fn flipped(self) -> GridModel<T> {
        GridModel {
            write: mirror_rows(self.read, self.width as int),
            dirty: DirtyRect { min_x: 0, min_y: 0, max_x: self.width, max_y: self.height },
            ..self
        }
    }
}

/// Cell `(x, y)` of a grid `width` wide sits at `y * width + x`, and that
/// position gives back `x` and `y`.
pub proof fn lemma_cell_index(x: int, y: int, width: int, height: int)
    requires
        0 <= x < width,
        0 <= y < height,
    ensures
        0 <= cell_index(x, y, width) < width * height,
        cell_index(x, y, width) % width == x,
        cell_index(x, y, width) / width == y,
{
    lemma_fundamental_div_mod_converse(cell_index(x, y, width), width, y, x);
    assert(0 <= y * width + x < width * height) by (nonlinear_arith)
        requires
            0 <= x < width,
            0 <= y < height,
    ;
}

/// Each position of a grid buffer is the position of one cell of the grid.
pub proof fn lemma_index_cell(i: int, width: int, height: int)
    requires
        0 <= i < width * height,
        width > 0,
    ensures
        0 <= i % width < width,
        0 <= i / width < height,
        i == cell_index(i % width, i / width, width),
{
    lemma_fundamental_div_mod(i, width);
    lemma_mul_is_commutative(width, i / width);
    assert(0 <= i % width < width);
    assert(0 <= i / width < height) by (nonlinear_arith)
        requires
            0 <= i < width * height,
            width > 0,
            i == width * (i / width) + (i % width),
            0 <= i % width < width,
    ;
}

/// A flush leaves nothing pending and both buffers equal; a second flush
/// with nothing in between copies nothing and changes neither buffer.
pub proof fn lemma_flush_idempotent<T>(g: GridModel<T>)
    requires
        g.wf(),
    ensures
        g.flushed().wf(),
        g.flushed().dirty.clean(),
        g.flushed().read == g.flushed().write,
        g.flushed().flushed().read == g.flushed().read,
        g.flushed().flushed().write == g.flushed().write,
        g.flushed().flushed().dirty == g.flushed().dirty,
{
    let f = g.flushed();
    assert(f.read =~= f.write);
    assert(f.flushed().read =~= f.read);
}

/// Rectangles marked within one frame may come in either order: the
/// pending rectangle is the same, and so is what a flush then copies.
pub proof fn lemma_mark_order<T>(g: GridModel<T>, a: DirtyRect, b: DirtyRect, write: Seq<T>)
    requires
        g.wf(),
        a.wf(g.width, g.height),
        b.wf(g.width, g.height),
    ensures
        g.marked(a).marked(b).dirty == g.marked(b).marked(a).dirty,
        (GridModel { write, ..g.marked(a).marked(b) }).flushed() == (GridModel {
            write,
            ..g.marked(b).marked(a)
        }).flushed(),
{
    crate::rect::lemma_union_associative(g.dirty, a, b, g.width, g.height);
    crate::rect::lemma_union_associative(g.dirty, b, a, g.width, g.height);
    crate::rect::lemma_union_commutative(a, b, g.width, g.height);
}

/// A grid of cells held twice: `write` takes every change at once, `read`
/// catches up on `flush`, which copies only the dirty rectangle.
pub struct PointDataStore<T> {
    mut_data: Vec<T>,
    imm_data: Vec<T>,
    width: u32,
    height: u32,
    dirty: DirtyRect,
    dirty_last: DirtyRect,
}

impl<T> View for PointDataStore<T> {
    type V = GridModel<T>;

    closed spec fn view(&self) -> GridModel<T> {
        GridModel {
            width: self.width,
            height: self.height,
            write: self.mut_data@,
            read: self.imm_data@,
            dirty: self.dirty,
            last_dirty: self.dirty_last,
        }
    }
}

impl<T: Copy> PointDataStore<T> {
    pub open spec fn wf(&self) -> bool {
        self@.wf()
    }

    pub fn new(data: Vec<T>, width: u32, height: u32) -> (r: Self)
        requires
            width > 0,
            height > 0,
            data@.len() == width * height,
        ensures
            r.wf(),
            r@ == GridModel::fresh(data@, width, height),
    {
        let dirty = DirtyRect::clean_rect(width, height);
        PointDataStore {
            mut_data: copy_cells(data.as_slice()),
            imm_data: data,
            width,
            height,
            dirty,
            dirty_last: dirty,
        }
    }

    fn get_index(&self, x: u32, y: u32) -> (r: usize)
        requires
            self.wf(),
            x < self@.width,
            y < self@.height,
        ensures
            r == self@.index(x as int, y as int),
            r < self@.size(),
    {
        let n = self.mut_data.len();
        proof {
            lemma_cell_index(x as int, y as int, self.width as int, self.height as int);
            assert(y * self.width <= y * self.width + x < n);
        }
        y as usize * self.width as usize + x as usize
    }

    fn try_get_index(&self, x: i32, y: i32) -> (r: Option<usize>)
        requires
            self.wf(),
        ensures
            r is Some <==> self@.in_grid(x as int, y as int),
            r matches Some(i) ==> i == self@.index(x as int, y as int) && i < self@.size(),
    {
        if x < 0 || y < 0 || x as u32 >= self.width || y as u32 >= self.height {
            None
        } else {
            Some(self.get_index(x as u32, y as u32))
        }
    }

    /// The write-buffer cell at `(x, y)`, to change in place. The cell must
    /// already be marked dirty.
    pub fn get_mut(&mut self, x: u32, y: u32) -> (r: &mut T)
        requires
            old(self).wf(),
            x < old(self)@.width,
            y < old(self)@.height,
            old(self)@.dirty.covers(x as int, y as int),
        ensures
            *r == old(self)@.write[old(self)@.index(x as int, y as int)],
            final(self)@ == (GridModel {
                write: old(self)@.write.update(old(self)@.index(x as int, y as int), *final(r)),
                ..old(self)@
            }),
    {
        let i = self.get_index(x, y);
        &mut self.mut_data[i]
    }

    /// The read-buffer cell at `(x, y)`.
    pub fn get(&self, x: u32, y: u32) -> (r: T)
        requires
            self.wf(),
            x < self@.width,
            y < self@.height,
        ensures
            r == self@.read[self@.index(x as int, y as int)],
    {
        let i = self.get_index(x, y);
        self.imm_data[i]
    }

    /// The read-buffer cell at `(x, y)`, or `None` off the grid.
    pub fn try_get(&self, x: i32, y: i32) -> (r: Option<T>)
        requires
            self.wf(),
        ensures
            r == self@.neighbor(x as int, y as int),
    {
        match self.try_get_index(x, y) {
            Some(i) => Some(self.imm_data[i]),
            None => None,
        }
    }

    /// Adds `rect` to the pending changes: the dirty rectangle becomes the
    /// union of itself and `rect`.
    pub fn set_dirty(&mut self, rect: DirtyRect)
        requires
            old(self).wf(),
            rect.wf(old(self)@.width, old(self)@.height),
        ensures
            final(self).wf(),
            final(self)@ == old(self)@.marked(rect),
    {
        proof {
            crate::rect::lemma_union_wf(self.dirty, rect, self.width, self.height);
        }
        self.dirty = self.dirty.union(&rect);
    }

    pub fn get_dirty(&self) -> (r: &DirtyRect)
        ensures
            *r == self@.dirty,
    {
        &self.dirty
    }

    pub fn get_last_dirty(&self) -> (r: &DirtyRect)
        ensures
            *r == self@.last_dirty,
    {
        &self.dirty_last
    }

    /// A copy of the write buffer.
    pub fn get_clone(&self) -> (r: Vec<T>)
        ensures
            r@ == self@.write,
    {
        copy_cells(self.mut_data.as_slice())
    }

    /// Copies the dirty rectangle of the write buffer, row by row, into the
    /// read buffer; records it as the last flushed rectangle and leaves
    /// nothing pending.
    pub fn flush(&mut self)
        requires
            old(self).wf(),
        ensures
            final(self).wf(),
            final(self)@ == old(self)@.flushed(),
    {
        let ghost g = self@;
        let w = self.width;
        let n = self.mut_data.len();
        if !self.dirty.is_clean() {
            let rect = self.dirty;
            let mut y: u32 = rect.min_y;
            while y < rect.max_y
                invariant
                    self@ == (GridModel { read: self@.read, ..g }),
                    g.wf(),
                    rect == g.dirty,
                    rect.is_box(),
                    w == g.width,
                    n == g.size(),
                    self.imm_data@.len() == n,
                    rect.min_y <= y <= rect.max_y,
                    forall|i: int|
                        0 <= i < n ==> #[trigger] self.imm_data@[i] == if i / (w as int) < y
                            && rect.covers(i % (w as int), i / (w as int)) {
                            g.write[i]
                        } else {
                            g.read[i]
                        },
                decreases rect.max_y - y,
            {
                let mut x: u32 = rect.min_x;
                while x < rect.max_x
                    invariant
                        self@ == (GridModel { read: self@.read, ..g }),
                        g.wf(),
                        rect == g.dirty,
                        rect.is_box(),
                        w == g.width,
                        n == g.size(),
                        self.imm_data@.len() == n,
                        rect.min_y <= y < rect.max_y,
                        rect.min_x <= x <= rect.max_x,
                        forall|i: int|
                            0 <= i < n ==> #[trigger] self.imm_data@[i] == if (i / (w as int) < y
                                || (i / (w as int) == y && i % (w as int) < x)) && rect.covers(
                                i % (w as int),
                                i / (w as int),
                            ) {
                                g.write[i]
                            } else {
                                g.read[i]
                            },
                    decreases rect.max_x - x,
                {
                    let i = self.get_index(x, y);
                    proof {
                        lemma_cell_index(x as int, y as int, w as int, g.height as int);
                        assert forall|j: int| 0 <= j < n && j != i implies (j / (w as int) == y
                            && #[trigger] (j % (w as int)) == x) == false by {
                            lemma_index_cell(j, w as int, g.height as int);
                        }
                    }
                    let v = self.mut_data[i];
                    self.imm_data.set(i, v);
                    x = x + 1;
                }
                y = y + 1;
            }
        }
        self.dirty_last = self.dirty;
        self.dirty = DirtyRect::clean_rect(self.width, self.height);
        proof {
            assert(self@.read =~= copy_region(g.read, g.write, g.dirty, w as int)) by {
                assert forall|i: int| 0 <= i < n implies #[trigger] self@.read[i] == copy_region(
                    g.read,
                    g.write,
                    g.dirty,
                    w as int,
                )[i] by {
                    lemma_index_cell(i, w as int, g.height as int);
                }
            }
        }
    }

    /// Makes every row of the write buffer the mirror image of the same row
    /// of the read buffer; the whole grid becomes pending.
    pub fn flip_hoz(&mut self)
        requires
            old(self).wf(),
        ensures
            final(self).wf(),
            final(self)@ == old(self)@.flipped(),
    {
        let ghost g = self@;
        self.dirty = DirtyRect::all_dirty(self.width, self.height);
        let w = self.width;
        let h = self.height;
        let n = self.mut_data.len();
        let mut y: u32 = 0;
        while y < h
            invariant
                self@ == (GridModel { write: self@.write, ..g.flipped() }),
                g.wf(),
                w == g.width,
                h == g.height,
                n == g.size(),
                self.mut_data@.len() == n,
                y <= h,
                forall|i: int|
                    0 <= i < n ==> #[trigger] self.mut_data@[i] == if i / (w as int) < y {
                        mirror_rows(g.read, w as int)[i]
                    } else {
                        g.write[i]
                    },
            decreases h - y,
        {
            let mut x: u32 = 0;
            while x < w
                invariant
                    self@ == (GridModel { write: self@.write, ..g.flipped() }),
                    g.wf(),
                    w == g.width,
                    h == g.height,
                    n == g.size(),
                    self.mut_data@.len() == n,
                    y < h,
                    x <= w,
                    forall|i: int|
                        0 <= i < n ==> #[trigger] self.mut_data@[i] == if i / (w as int) < y || (i
                            / (w as int) == y && i % (w as int) < x) {
                            mirror_rows(g.read, w as int)[i]
                        } else {
                            g.write[i]
                        },
                decreases w - x,
            {
                let i = self.get_index(x, y);
                let isrc = self.get_index(w - x - 1, y);
                proof {
                    lemma_cell_index(x as int, y as int, w as int, h as int);
                    assert forall|j: int| 0 <= j < n && j != i implies (j / (w as int) == y
                        && #[trigger] (j % (w as int)) == x) == false by {
                        lemma_index_cell(j, w as int, h as int);
                    }
                }
                let v = self.imm_data[isrc];
                self.mut_data.set(i, v);
                x = x + 1;
            }
            y = y + 1;
        }
        proof {
            assert(self@.write =~= mirror_rows(g.read, w as int)) by {
                assert forall|i: int| 0 <= i < n implies #[trigger] self@.write[i] == mirror_rows(
                    g.read,
                    w as int,
                )[i] by {
                    lemma_index_cell(i, w as int, h as int);
                }
            }
            assert forall|i: int| 0 <= i < n implies #[trigger] self@.dirty.covers(
                i % (w as int),
                i / (w as int),
            ) by {
                lemma_index_cell(i, w as int, h as int);
            }
        }
    }

    pub fn get_width(&self) -> (r: u32)
        ensures
            r == self@.width,
    {
        self.width
    }

    pub fn get_height(&self) -> (r: u32)
        ensures
            r == self@.height,
    {
        self.height
    }
}

} // verus!
