use vstd::prelude::*;

use std::collections::VecDeque;

use rand_xorshift::XorShiftRng;

use crate::grid::{copy_region, GridModel, PointDataStore};
use crate::rect::DirtyRect;
use crate::rng::{next_word, seeded_rng};

verus! {

/// How many snapshots the undo history keeps.
pub const MAX_UNDOS: usize = 8;

/// The category that sampling gives a cell.
#[derive(Clone, Copy, Debug, PartialEq, Eq, Structural)]
pub enum Color {
    /// Above the threshold, and the random draw fell on this side.
    X,
    /// Above the threshold, and the random draw fell on the other side.
    Y,
    /// Below the threshold.
    Z,
    /// Within the band around the threshold.
    THRESH,
}

impl Default for Color {
    fn default() -> (r: Self)
        ensures
            r == Color::X,
    {
        Color::X
    }
}

/// A sampled cell for the rasterizer. Coordinates keep their low 8 bits.
#[derive(Clone, Copy, Debug, PartialEq, Eq, Structural)]
pub struct DrawPoint {
    pub x: u8,
    pub y: u8,
    pub col: Color,
}

impl Default for DrawPoint {
    fn default() -> (r: Self)
        ensures
            r == (DrawPoint { x: 0, y: 0, col: Color::X }),
    {
        DrawPoint { x: 0, y: 0, col: Color::X }
    }
}

/// How a cell stands against the threshold of its row.
#[derive(Clone, Copy, Debug, PartialEq, Eq, Structural)]
pub enum Level {
    /// Within the band around the threshold.
    OnThreshold,
    Above,
    Below,
}

/// The state of a [`BlobCanvas`], its random generator aside.
pub struct CanvasModel<T> {
    pub grid: GridModel<T>,
    /// Snapshots of the write buffer, oldest first.
    pub history: Seq<Seq<T>>,
    pub draw: Seq<DrawPoint>,
    /// Elapsed microseconds, modulo 2^32.
    pub t: u32,
}

/// Number of draw points of a `width` by `height` canvas: 5% of its cells.
pub open spec fn draw_len(width: u32, height: u32) -> int {
    width * height / 20
}

/// `history` with `snap` added; beyond [`MAX_UNDOS`] the oldest goes.
pub open spec fn push_history<T>(history: Seq<Seq<T>>, snap: Seq<T>) -> Seq<Seq<T>> {
    if history.len() + 1 > MAX_UNDOS {
        history.push(snap).drop_first()
    } else {
        history.push(snap)
    }
}

/// `cell` is what `init` can make of some random word.
pub open spec fn from_word<T, F: Fn(u32) -> T>(init: F, cell: T) -> bool {
    exists|word: u32| #[trigger] init.ensures((word,), cell)
}

/// `col` is a category that sampling can give `cell` on row `y`: the
/// threshold band first, then, above it, one random word for `pick`.
pub open spec fn sample_outcome<T, C: Fn(T, u32) -> Level, P: Fn(T, u32) -> bool>(
    classify: C,
    pick: P,
    cell: T,
    y: u32,
    col: Color,
) -> bool {
    exists|level: Level|
        #[trigger] classify.ensures((cell, y), level) && match level {
            Level::OnThreshold => col == Color::THRESH,
            Level::Below => col == Color::Z,
            Level::Above => exists|word: u32, below: bool|
                #[trigger] pick.ensures((cell, word), below) && col == if below {
                    Color::X
                } else {
                    Color::Y
                },
        }
}

/// `p` is a sample, by `classify` and `pick`, of a read-buffer cell of
/// `grid` inside `region`, its coordinates cut to 8 bits.
pub open spec fn drawn_from<T, C: Fn(T, u32) -> Level, P: Fn(T, u32) -> bool>(
    grid: GridModel<T>,
    region: DirtyRect,
    classify: C,
    pick: P,
    p: DrawPoint,
) -> bool {
    exists|x: u32, y: u32|
        #[trigger] region.covers(x as int, y as int) && grid.in_grid(x as int, y as int) && p.x == (
        x as u8) && p.y == (y as u8) && sample_outcome(
            classify,
            pick,
            grid.read[grid.index(x as int, y as int)],
            y,
            p.col,
        )
}

/// The whole of a `width` by `height` grid as a rectangle.
pub open spec fn whole_grid(width: u32, height: u32) -> DirtyRect {
    DirtyRect { min_x: 0, min_y: 0, max_x: width, max_y: height }
}

/// Of `len` draw points, how many sample the whole grid when a region was
/// flushed last: 95%.
pub open spec fn uniform_count(len: int) -> int {
    len * 19 / 20
}

/// The cells `[p - rad, p + rad)` of a stroke centred on `p`, clipped to
/// `[0, size)`.
pub open spec fn stroke_span(p: int, rad: int, size: int) -> (int, int) {
    (if p - rad > 0 { p - rad } else { 0 }, if p + rad < size { p + rad } else { size })
}

/// The square of cells that a stroke of half-width `rad` centred on pixel
/// `(px, py)` covers inside a `width` by `height` grid, if any.
pub open spec fn stroke_rect(px: int, py: int, rad: int, width: u32, height: u32) -> Option<
    DirtyRect,
> {
    let (x0, x1) = stroke_span(px, rad, width as int);
    let (y0, y1) = stroke_span(py, rad, height as int);
    if x0 < x1 && y0 < y1 {
        Some(DirtyRect { min_x: x0 as u32, max_x: x1 as u32, min_y: y0 as u32, max_y: y1 as u32 })
    } else {
        None
    }
}

/// `after` is `before`'s write buffer with each cell of `rect` replaced by
/// what `paint` makes of its offset from the centre `(px, py)`, its old
/// value and the read-buffer cell `(reach_x, reach_y)` away from it.
pub open spec fn painted<T, F: Fn(i32, i32, T, Option<T>) -> T>(
    before: GridModel<T>,
    after: Seq<T>,
    rect: DirtyRect,
    px: i32,
    py: i32,
    reach_x: i32,
    reach_y: i32,
    paint: F,
) -> bool {
    &&& after.len() == before.write.len()
    &&& forall|i: int|
        0 <= i < before.size() ==> {
            let x = i % (before.width as int);
            let y = i / (before.width as int);
            if rect.covers(x, y) {
                paint.ensures(
                    (
                        (px - x) as i32,
                        (py - y) as i32,
                        before.write[i],
                        before.neighbor(x + reach_x, y + reach_y),
                    ),
                    #[trigger] after[i],
                )
            } else {
                after[i] == before.write[i]
            }
        }
}

impl<T> CanvasModel<T> {
    pub open spec fn wf(self) -> bool {
        &&& self.grid.wf()
        &&& self.grid.size() <= u32::MAX
        &&& self.grid.width <= i32::MAX
        &&& self.grid.height <= i32::MAX
        &&& self.history.len() <= MAX_UNDOS
        &&& forall|k: int|
            0 <= k < self.history.len() ==> (#[trigger] self.history[k]).len() == self.grid.size()
        &&& self.draw.len() == draw_len(self.grid.width, self.grid.height)
    }

    /// A snapshot of the write buffer added to the history.
    pub open spec fn pushed(self) -> CanvasModel<T> {
        CanvasModel { history: push_history(self.history, self.grid.write), ..self }
    }

    /// The newest snapshot taken off the history and made the content of
    /// both buffers, with nothing pending; no change on an empty history.
    pub open spec fn popped(self) -> CanvasModel<T> {
        if self.history.len() == 0 {
            self
        } else {
            CanvasModel {
                grid: GridModel::fresh(self.history.last(), self.grid.width, self.grid.height),
                history: self.history.drop_last(),
                ..self
            }
        }
    }
}

/// A canvas of cells of type `T` with a write/read double buffer, an undo
/// history, a clock and a seeded random generator that both the content
/// and the draw-point sampling draw from.
pub struct BlobCanvas<T> {
    data: PointDataStore<T>,
    undo_stack: VecDeque<Vec<T>>,
    draw_buffer: Vec<DrawPoint>,
    t: u32,
    rng: XorShiftRng,
}

impl<T> View for BlobCanvas<T> {
    type V = CanvasModel<T>;

    closed spec fn view(&self) -> CanvasModel<T> {
        CanvasModel {
            grid: self.data@,
            history: self.undo_stack@.map_values(|v: Vec<T>| v@),
            draw: self.draw_buffer@,
            t: self.t,
        }
    }
}

/// Fills a `width` by `height` grid with one cell per random word, each
/// made by `init`.
fn empty_canvas_data<T: Copy, F: Fn(u32) -> T>(
    width: u32,
    height: u32,
    rng: &mut XorShiftRng,
    init: &F,
) -> (r: PointDataStore<T>)
    requires
        width > 0,
        height > 0,
        width * height <= u32::MAX,
        forall|word: u32| init.requires((word,)),
    ensures
        r.wf(),
        r@ == GridModel::fresh(r@.write, width, height),
        forall|i: int|
            0 <= i < r@.write.len() ==> from_word(init, #[trigger] r@.write[i]),
{
    let size = width * height;
    let mut data: Vec<T> = Vec::with_capacity(size as usize);
    let mut i: u32 = 0;
    while i < size
        invariant
            forall|word: u32| init.requires((word,)),
            i <= size,
            data@.len() == i,
            forall|k: int| 0 <= k < i ==> from_word(init, #[trigger] data@[k]),
        decreases size - i,
    {
        let word = next_word(rng);
        let cell = init(word);
        data.push(cell);
        i = i + 1;
        assert(init.ensures((word,), data@[i - 1]));
    }
    PointDataStore::new(data, width, height)
}

impl<T: Copy> BlobCanvas<T> {
    pub open spec fn wf(&self) -> bool {
        self@.wf()
    }

    /// A `width` by `height` canvas whose cells `init` makes from the
    /// generator's first `width * height` words; the seed is fixed, so two
    /// canvases made alike are alike.
    pub fn new<F: Fn(u32) -> T>(width: u32, height: u32, init: F) -> (r: Self)
        requires
            width > 0,
            height > 0,
            width * height <= u32::MAX,
            width <= i32::MAX,
            height <= i32::MAX,
            forall|word: u32| init.requires((word,)),
        ensures
            r.wf(),
            r@.grid == GridModel::fresh(r@.grid.write, width, height),
            forall|i: int|
                0 <= i < r@.grid.write.len() ==> from_word(init, #[trigger] r@.grid.write[i]),
            r@.history.len() == 0,
            r@.t == 0,
            r@.draw.len() == draw_len(width, height),
            forall|i: int|
                0 <= i < r@.draw.len() ==> #[trigger] r@.draw[i] == (DrawPoint {
                    x: 0,
                    y: 0,
                    col: Color::X,
                }),
    {
        let seed: [u8; 16] = [0, 1, 2, 3, 4, 5, 6, 7, 8, 9, 10, 11, 12, 13, 14, 15];
        let mut rng = seeded_rng(seed);
        let data = empty_canvas_data(width, height, &mut rng, &init);
        let draw_size = (width * height / 20) as usize;
        let mut draw_buffer: Vec<DrawPoint> = Vec::with_capacity(draw_size);
        let mut i: usize = 0;
        while i < draw_size
            invariant
                i <= draw_size,
                draw_buffer@.len() == i,
                forall|k: int|
                    0 <= k < i ==> #[trigger] draw_buffer@[k] == (DrawPoint {
                        x: 0,
                        y: 0,
                        col: Color::X,
                    }),
            decreases draw_size - i,
        {
            draw_buffer.push(DrawPoint::default());
            i = i + 1;
        }
        let r = BlobCanvas {
            data,
            undo_stack: VecDeque::with_capacity(MAX_UNDOS + 1),
            draw_buffer,
            t: 0,
            rng,
        };
        assert(r@.history =~= Seq::empty());
        r
    }

    /// Advances the clock by `microseconds` (wrapping) and flushes the grid.
    pub fn tick(&mut self, microseconds: u32)
        requires
            old(self).wf(),
        ensures
            final(self).wf(),
            final(self)@ == (CanvasModel {
                grid: old(self)@.grid.flushed(),
                t: (if old(self)@.t + microseconds > u32::MAX {
                    old(self)@.t + microseconds - 0x1_0000_0000
                } else {
                    old(self)@.t + microseconds
                }) as u32,
                ..old(self)@
            }),
    {
        self.t = self.t.wrapping_add(microseconds);
        self.data.flush();
        proof {
            crate::grid::lemma_flush_idempotent(old(self)@.grid);
        }
    }

    /// Adds a snapshot of the write buffer to the undo history, dropping the
    /// oldest beyond [`MAX_UNDOS`].
    pub fn push_undo(&mut self)
        requires
            old(self).wf(),
        ensures
            final(self).wf(),
            final(self)@ == old(self)@.pushed(),
    {
        let ghost h0 = self@.history;
        let snap = self.data.get_clone();
        self.undo_stack.push_back(snap);
        assert(self@.history =~= h0.push(snap@));
        while self.undo_stack.len() > MAX_UNDOS
            invariant
                self.undo_stack@.len() <= MAX_UNDOS + 1,
                self@.history == if self.undo_stack@.len() > MAX_UNDOS {
                    h0.push(snap@)
                } else {
                    push_history(h0, snap@)
                },
                h0.len() <= MAX_UNDOS,
                h0 == old(self)@.history,
                snap@ == old(self)@.grid.write,
                self.data == old(self).data,
                self.draw_buffer == old(self).draw_buffer,
                self.t == old(self).t,
            decreases self.undo_stack@.len(),
        {
            let ghost before = self.undo_stack@;
            let _ = self.undo_stack.pop_front();
            assert(self@.history =~= before.map_values(|v: Vec<T>| v@).drop_first());
        }
    }

    /// Restores the newest snapshot of the undo history into both buffers
    /// and removes it; `false`, and no change, when the history is empty.
    pub fn try_pop_undo(&mut self) -> (r: bool)
        requires
            old(self).wf(),
        ensures
            final(self).wf(),
            r == (old(self)@.history.len() > 0),
            final(self)@ == old(self)@.popped(),
    {
        let ghost h0 = self@.history;
        match self.undo_stack.pop_back() {
            Some(data) => {
                assert(data@ == h0.last());
                assert(self@.history =~= h0.drop_last());
                let (w, h) = (self.data.get_width(), self.data.get_height());
                self.data = PointDataStore::new(data, w, h);
                true
            },
            None => false,
        }
    }

    /// Pushes an undo snapshot, then refills every cell from the generator
    /// as [`BlobCanvas::new`] does.
    pub fn clear<F: Fn(u32) -> T>(&mut self, init: F)
        requires
            old(self).wf(),
            forall|word: u32| init.requires((word,)),
        ensures
            final(self).wf(),
            final(self)@.history == old(self)@.pushed().history,
            final(self)@.grid == GridModel::fresh(
                final(self)@.grid.write,
                old(self)@.grid.width,
                old(self)@.grid.height,
            ),
            forall|i: int|
                0 <= i < final(self)@.grid.write.len() ==> from_word(
                    init,
                    #[trigger] final(self)@.grid.write[i],
                ),
            final(self)@.draw == old(self)@.draw,
            final(self)@.t == old(self)@.t,
    {
        self.push_undo();
        let (w, h) = (self.data.get_width(), self.data.get_height());
        self.data = empty_canvas_data(w, h, &mut self.rng, &init);
    }

    /// Samples read-buffer cell `(x, y)`: `classify` places it against the
    /// threshold of row `y`; `OnThreshold` gives `THRESH`, `Below` gives `Z`,
    /// and `Above` draws one random word, then `X` where `pick` holds of the
    /// cell and the word, else `Y`.
    pub fn sample_pixel<C: Fn(T, u32) -> Level, P: Fn(T, u32) -> bool>(
        &mut self,
        x: u32,
        y: u32,
        classify: &C,
        pick: &P,
    ) -> (r: Color)
        requires
            old(self).wf(),
            x < old(self)@.grid.width,
            y < old(self)@.grid.height,
            forall|c: T, row: u32| classify.requires((c, row)),
            forall|c: T, word: u32| pick.requires((c, word)),
        ensures
            final(self).wf(),
            final(self)@ == old(self)@,
            sample_outcome(
                *classify,
                *pick,
                old(self)@.grid.read[old(self)@.grid.index(x as int, y as int)],
                y,
                r,
            ),
    {
        let cell = self.data.get(x, y);
        let level = classify(cell, y);
        match level {
            Level::OnThreshold => Color::THRESH,
            Level::Above => {
                let word = next_word(&mut self.rng);
                let below = pick(cell, word);
                if below {
                    Color::X
                } else {
                    Color::Y
                }
            },
            Level::Below => Color::Z,
        }
    }

    /// Fills draw points `0..count` with samples of cells picked by the
    /// generator over the whole grid.
    fn fill_draw_buffer_uniform<C: Fn(T, u32) -> Level, P: Fn(T, u32) -> bool>(
        &mut self,
        count: usize,
        classify: &C,
        pick: &P,
    )
        requires
            old(self).wf(),
            count <= old(self)@.draw.len(),
            forall|c: T, row: u32| classify.requires((c, row)),
            forall|c: T, word: u32| pick.requires((c, word)),
        ensures
            final(self).wf(),
            final(self)@.grid == old(self)@.grid,
            final(self)@.history == old(self)@.history,
            final(self)@.t == old(self)@.t,
            final(self)@.draw.len() == old(self)@.draw.len(),
            forall|i: int|
                0 <= i < count ==> drawn_from(
                    old(self)@.grid,
                    whole_grid(old(self)@.grid.width, old(self)@.grid.height),
                    *classify,
                    *pick,
                    #[trigger] final(self)@.draw[i],
                ),
            forall|i: int|
                count <= i < old(self)@.draw.len() ==> #[trigger] final(self)@.draw[i] == old(
                    self,
                )@.draw[i],
    {
        let w = self.data.get_width();
        let h = self.data.get_height();
        let ghost whole = whole_grid(w, h);
        let mut i: usize = 0;
        while i < count
            invariant
                self.wf(),
                self@ == (CanvasModel { draw: self@.draw, ..old(self)@ }),
                w == self@.grid.width,
                h == self@.grid.height,
                whole == whole_grid(w, h),
                count <= self@.draw.len(),
                self@.draw.len() == old(self)@.draw.len(),
                forall|c: T, row: u32| classify.requires((c, row)),
                forall|c: T, word: u32| pick.requires((c, word)),
                i <= count,
                forall|k: int|
                    0 <= k < i ==> drawn_from(
                        old(self)@.grid,
                        whole,
                        *classify,
                        *pick,
                        #[trigger] self@.draw[k],
                    ),
                forall|k: int|
                    count <= k < old(self)@.draw.len() ==> #[trigger] self@.draw[k] == old(
                        self,
                    )@.draw[k],
            decreases count - i,
        {
            let x = next_word(&mut self.rng) % w;
            let y = next_word(&mut self.rng) % h;
            let col = self.sample_pixel(x, y, classify, pick);
            let p = DrawPoint { x: #[verifier::truncate] (x as u8), y: #[verifier::truncate] (y as u8), col };
            self.draw_buffer.set(i, p);
            assert(whole.covers(x as int, y as int));
            assert(drawn_from(old(self)@.grid, whole, *classify, *pick, p));
            i = i + 1;
        }
    }

    /// Refills the draw buffer. When the last flush copied nothing, every
    /// point samples the whole grid; otherwise the first 95% do and the rest
    /// sample the rectangle that the last flush copied.
    pub fn fill_draw_buffer<C: Fn(T, u32) -> Level, P: Fn(T, u32) -> bool>(
        &mut self,
        classify: &C,
        pick: &P,
    )
        requires
            old(self).wf(),
            forall|c: T, row: u32| classify.requires((c, row)),
            forall|c: T, word: u32| pick.requires((c, word)),
        ensures
            final(self).wf(),
            final(self)@.grid == old(self)@.grid,
            final(self)@.history == old(self)@.history,
            final(self)@.t == old(self)@.t,
            final(self)@.draw.len() == old(self)@.draw.len(),
            forall|i: int|
                0 <= i < old(self)@.draw.len() ==> drawn_from(
                    old(self)@.grid,
                    if old(self)@.grid.last_dirty.clean() || i < uniform_count(
                        old(self)@.draw.len() as int,
                    ) {
                        whole_grid(old(self)@.grid.width, old(self)@.grid.height)
                    } else {
                        old(self)@.grid.last_dirty
                    },
                    *classify,
                    *pick,
                    #[trigger] final(self)@.draw[i],
                ),
    {
        let rect = *self.data.get_last_dirty();
        let len = self.draw_buffer.len();
        if rect.is_clean() {
            self.fill_draw_buffer_uniform(len, classify, pick);
        } else {
            let count = (len as u64 * 19 / 20) as usize;
            self.fill_draw_buffer_uniform(count, classify, pick);
            let ghost mid = self@;
            let x_range = rect.max_x - rect.min_x;
            let y_range = rect.max_y - rect.min_y;
            let mut i: usize = count;
            while i < len
                invariant
                    self.wf(),
                    self@ == (CanvasModel { draw: self@.draw, ..mid }),
                    mid.grid == old(self)@.grid,
                    mid.history == old(self)@.history,
                    mid.t == old(self)@.t,
                    rect == old(self)@.grid.last_dirty,
                    rect.is_box(),
                    rect.max_x <= old(self)@.grid.width,
                    rect.max_y <= old(self)@.grid.height,
                    x_range == rect.max_x - rect.min_x,
                    y_range == rect.max_y - rect.min_y,
                    len == self@.draw.len(),
                    len == old(self)@.draw.len(),
                    count == uniform_count(len as int),
                    forall|c: T, row: u32| classify.requires((c, row)),
                    forall|c: T, word: u32| pick.requires((c, word)),
                    count <= i <= len,
                    forall|k: int|
                        0 <= k < count ==> drawn_from(
                            old(self)@.grid,
                            whole_grid(old(self)@.grid.width, old(self)@.grid.height),
                            *classify,
                            *pick,
                            #[trigger] self@.draw[k],
                        ),
                    forall|k: int|
                        count <= k < i ==> drawn_from(
                            old(self)@.grid,
                            rect,
                            *classify,
                            *pick,
                            #[trigger] self@.draw[k],
                        ),
                decreases len - i,
            {
                let x = rect.min_x + next_word(&mut self.rng) % x_range;
                let y = rect.min_y + next_word(&mut self.rng) % y_range;
                let col = self.sample_pixel(x, y, classify, pick);
                let p = DrawPoint {
                    x: #[verifier::truncate] (x as u8),
                    y: #[verifier::truncate] (y as u8),
                    col,
                };
                self.draw_buffer.set(i, p);
                assert(rect.covers(x as int, y as int));
                assert(drawn_from(old(self)@.grid, rect, *classify, *pick, p));
                i = i + 1;
            }
        }
    }

    /// One stroke of half-width `rad` centred on pixel `(px, py)`: the
    /// clipped square is added to the dirty rectangle, then each of its cells
    /// in the write buffer becomes what `paint` makes of the cell's offset
    /// from the centre, its value and the read-buffer cell `(reach_x,
    /// reach_y)` away from it (`None` off the grid). Strokes read neighbours
    /// from the read buffer only, so no cell sees another cell of the same
    /// stroke. A stroke that misses the grid changes nothing.
    pub fn apply_brush_internal<F: Fn(i32, i32, T, Option<T>) -> T>(
        &mut self,
        px: i32,
        py: i32,
        rad: i32,
        reach_x: i32,
        reach_y: i32,
        paint: &F,
    )
        requires
            old(self).wf(),
            forall|dx: i32, dy: i32, c: T, n: Option<T>| paint.requires((dx, dy, c, n)),
        ensures
            final(self).wf(),
            match stroke_rect(
                px as int,
                py as int,
                rad as int,
                old(self)@.grid.width,
                old(self)@.grid.height,
            ) {
                None => final(self)@ == old(self)@,
                Some(rect) => {
                    &&& final(self)@ == (CanvasModel {
                        grid: GridModel {
                            write: final(self)@.grid.write,
                            ..old(self)@.grid.marked(rect)
                        },
                        ..old(self)@
                    })
                    &&& painted(
                        old(self)@.grid,
                        final(self)@.grid.write,
                        rect,
                        px,
                        py,
                        reach_x,
                        reach_y,
                        *paint,
                    )
                },
            },
    {
        let ghost g = self@.grid;
        let w = self.data.get_width();
        let h = self.data.get_height();
        let x0: i64 = if px as i64 - rad as i64 > 0 { px as i64 - rad as i64 } else { 0 };
        let x1: i64 = if (px as i64 + rad as i64) < w as i64 { px as i64 + rad as i64 } else { w as i64 };
        let y0: i64 = if py as i64 - rad as i64 > 0 { py as i64 - rad as i64 } else { 0 };
        let y1: i64 = if (py as i64 + rad as i64) < h as i64 { py as i64 + rad as i64 } else { h as i64 };
        if x0 >= x1 || y0 >= y1 {
            return;
        }
        let rect = DirtyRect { min_x: x0 as u32, max_x: x1 as u32, min_y: y0 as u32, max_y: y1 as u32 };
        self.data.set_dirty(rect);
        let ghost marked = self@;
        let mut y: i64 = y0;
        while y < y1
            invariant
                self.wf(),
                self@ == (CanvasModel {
                    grid: GridModel { write: self@.grid.write, ..marked.grid },
                    ..marked
                }),
                marked.grid == (GridModel { dirty: marked.grid.dirty, ..g }),
                marked.grid.dirty == g.dirty.spec_union(rect),
                g.wf(),
                w == g.width,
                h == g.height,
                w <= i32::MAX,
                h <= i32::MAX,
                rect.min_x == x0,
                rect.max_x == x1,
                rect.min_y == y0,
                rect.max_y == y1,
                0 <= x0 < x1 <= w,
                0 <= y0 < y1 <= h,
                x0 >= px - rad,
                x1 <= px + rad,
                y0 >= py - rad,
                y1 <= py + rad,
                y0 <= y <= y1,
                forall|dx: i32, dy: i32, c: T, n: Option<T>| paint.requires((dx, dy, c, n)),
                self@.grid.write.len() == g.size(),
                forall|i: int|
                    0 <= i < g.size() ==> {
                        let cx = i % (w as int);
                        let cy = i / (w as int);
                        if cy < y && rect.covers(cx, cy) {
                            paint.ensures(
                                (
                                    (px - cx) as i32,
                                    (py - cy) as i32,
                                    g.write[i],
                                    g.neighbor(cx + reach_x, cy + reach_y),
                                ),
                                #[trigger] self@.grid.write[i],
                            )
                        } else {
                            self@.grid.write[i] == g.write[i]
                        }
                    },
            decreases y1 - y,
        {
            let mut x: i64 = x0;
            while x < x1
                invariant
                    self.wf(),
                    self@ == (CanvasModel {
                        grid: GridModel { write: self@.grid.write, ..marked.grid },
                        ..marked
                    }),
                    marked.grid == (GridModel { dirty: marked.grid.dirty, ..g }),
                    marked.grid.dirty == g.dirty.spec_union(rect),
                    g.wf(),
                    w == g.width,
                    h == g.height,
                    w <= i32::MAX,
                    h <= i32::MAX,
                    rect.min_x == x0,
                    rect.max_x == x1,
                    rect.min_y == y0,
                    rect.max_y == y1,
                    0 <= x0 < x1 <= w,
                    0 <= y0 < y1 <= h,
                    x0 >= px - rad,
                    x1 <= px + rad,
                    y0 >= py - rad,
                    y1 <= py + rad,
                    y0 <= y < y1,
                    x0 <= x <= x1,
                    forall|dx: i32, dy: i32, c: T, n: Option<T>| paint.requires((dx, dy, c, n)),
                    self@.grid.write.len() == g.size(),
                    forall|i: int|
                        0 <= i < g.size() ==> {
                            let cx = i % (w as int);
                            let cy = i / (w as int);
                            if (cy < y || (cy == y && cx < x)) && rect.covers(cx, cy) {
                                paint.ensures(
                                    (
                                        (px - cx) as i32,
                                        (py - cy) as i32,
                                        g.write[i],
                                        g.neighbor(cx + reach_x, cy + reach_y),
                                    ),
                                    #[trigger] self@.grid.write[i],
                                )
                            } else {
                                self@.grid.write[i] == g.write[i]
                            }
                        },
                decreases x1 - x,
            {
                let nx: i64 = x + reach_x as i64;
                let ny: i64 = y + reach_y as i64;
                let neighbor = if nx < 0 || ny < 0 || nx >= w as i64 || ny >= h as i64 {
                    None
                } else {
                    self.data.try_get(nx as i32, ny as i32)
                };
                let dx = (px as i64 - x) as i32;
                let dy = (py as i64 - y) as i32;
                let ghost i = g.index(x as int, y as int);
                proof {
                    crate::grid::lemma_cell_index(x as int, y as int, w as int, h as int);
                    crate::rect::lemma_union_wf(g.dirty, rect, w, h);
                    assert forall|j: int| 0 <= j < g.size() && j != i implies (j / (w as int) == y
                        && #[trigger] (j % (w as int)) == x) == false by {
                        crate::grid::lemma_index_cell(j, w as int, h as int);
                    }
                }
                let cell = self.data.get_mut(x as u32, y as u32);
                *cell = paint(dx, dy, *cell, neighbor);
                x = x + 1;
            }
            y = y + 1;
        }
    }

    pub fn get_draw_buffer_size(&self) -> (r: usize)
        ensures
            r == self@.draw.len(),
    {
        self.draw_buffer.len()
    }

    /// The draw points of the last fill.
    pub fn get_draw_buffer(&self) -> (r: &[DrawPoint])
        ensures
            r@ == self@.draw,
    {
        self.draw_buffer.as_slice()
    }

    /// The grid's double buffer.
    pub fn get_data(&self) -> (r: &PointDataStore<T>)
        ensures
            r@ == self@.grid,
    {
        &self.data
    }

    /// Elapsed microseconds, modulo 2^32.
    pub fn get_time(&self) -> (r: u32)
        ensures
            r == self@.t,
    {
        self.t
    }

    pub fn get_width(&self) -> (r: u32)
        ensures
            r == self@.grid.width,
    {
        self.data.get_width()
    }

    pub fn get_height(&self) -> (r: u32)
        ensures
            r == self@.grid.height,
    {
        self.data.get_height()
    }
}

/// Undo round trip: a snapshot pushed, then any changes that leave the
/// history alone (strokes, flushes, sampling), then a pop: the write buffer
/// is back to what it was at the push, with nothing pending, and the
/// history is back too unless the push evicted its oldest snapshot. Where
/// nothing was pending at the push, the read buffer is back as well.
pub proof fn lemma_undo_round_trip<T>(before: CanvasModel<T>, edited: CanvasModel<T>)
    requires
        before.wf(),
        edited.history == before.pushed().history,
        edited.grid.width == before.grid.width,
        edited.grid.height == before.grid.height,
    ensures
        edited.popped().grid == GridModel::fresh(
            before.grid.write,
            before.grid.width,
            before.grid.height,
        ),
        before.history.len() < MAX_UNDOS ==> edited.popped().history == before.history,
        before.grid.dirty.clean() ==> edited.popped().grid.read == before.grid.read,
{
    let w = before.grid.width as int;
    if before.history.len() < MAX_UNDOS {
        assert(before.history.push(before.grid.write).drop_last() =~= before.history);
    }
    if before.grid.dirty.clean() {
        assert forall|i: int| 0 <= i < before.grid.size() implies #[trigger] before.grid.read[i]
            == before.grid.write[i] by {
            assert(!before.grid.dirty.covers(i % w, i / w));
        }
        assert(before.grid.read =~= before.grid.write);
    }
}

/// A cell property that a painter keeps (given cells that have it, it
/// makes only cells that have it) and that held of every cell of both
/// buffers still holds of every cell after a stroke with that painter, and
/// in the read buffer that the flush ending the frame leaves
/// ([`GridModel::flushed`] copies exactly this region).
pub proof fn lemma_stroke_keeps_cell_property<T, F: Fn(i32, i32, T, Option<T>) -> T>(
    before: GridModel<T>,
    after: Seq<T>,
    rect: DirtyRect,
    px: i32,
    py: i32,
    reach_x: i32,
    reach_y: i32,
    paint: F,
    keep: spec_fn(T) -> bool,
)
    requires
        before.wf(),
        rect.wf(before.width, before.height),
        forall|i: int| 0 <= i < before.size() ==> keep(#[trigger] before.write[i]),
        forall|i: int| 0 <= i < before.size() ==> keep(#[trigger] before.read[i]),
        forall|dx: i32, dy: i32, c: T, n: Option<T>, r: T|
            keep(c) && (n matches Some(v) ==> keep(v)) && #[trigger] paint.ensures((dx, dy, c, n), r)
                ==> keep(r),
        painted(before, after, rect, px, py, reach_x, reach_y, paint),
    ensures
        forall|i: int| 0 <= i < before.size() ==> keep(#[trigger] after[i]),
        forall|i: int|
            0 <= i < before.size() ==> keep(
                #[trigger] copy_region(
                    before.read,
                    after,
                    before.dirty.spec_union(rect),
                    before.width as int,
                )[i],
            ),
{
    let w = before.width as int;
    assert forall|i: int| 0 <= i < before.size() implies keep(#[trigger] after[i]) by {
        let x = i % w;
        let y = i / w;
        crate::grid::lemma_index_cell(i, w, before.height as int);
        let n = before.neighbor(x + reach_x, y + reach_y);
        if let Some(v) = n {
            crate::grid::lemma_cell_index(x + reach_x, y + reach_y, w, before.height as int);
            assert(keep(before.read[before.index(x + reach_x, y + reach_y)]));
        }
    }
}

/// `paint` gives one result for one input.
pub open spec fn deterministic<T, F: Fn(i32, i32, T, Option<T>) -> T>(paint: F) -> bool {
    forall|args: (i32, i32, T, Option<T>), r1: T, r2: T|
        #[trigger] paint.ensures(args, r1) && #[trigger] paint.ensures(args, r2) ==> r1 == r2
}

/// Two strokes on disjoint squares within one frame, in either order: with
/// painters that give one result for one input, both orders leave the same
/// write buffer and the same dirty rectangle, so the flush that ends the
/// frame leaves the same read buffer.
pub proof fn lemma_disjoint_strokes_commute<
    T,
    FA: Fn(i32, i32, T, Option<T>) -> T,
    FB: Fn(i32, i32, T, Option<T>) -> T,
>(
    g0: GridModel<T>,
    a: DirtyRect,
    a_at: (i32, i32),
    a_reach: (i32, i32),
    paint_a: FA,
    b: DirtyRect,
    b_at: (i32, i32),
    b_reach: (i32, i32),
    paint_b: FB,
    a_then_b: (Seq<T>, Seq<T>),
    b_then_a: (Seq<T>, Seq<T>),
)
    requires
        g0.wf(),
        a.wf(g0.width, g0.height),
        b.wf(g0.width, g0.height),
        forall|x: int, y: int| !(a.covers(x, y) && b.covers(x, y)),
        deterministic(paint_a),
        deterministic(paint_b),
        painted(g0, a_then_b.0, a, a_at.0, a_at.1, a_reach.0, a_reach.1, paint_a),
        painted(
            GridModel { write: a_then_b.0, ..g0.marked(a) },
            a_then_b.1,
            b,
            b_at.0,
            b_at.1,
            b_reach.0,
            b_reach.1,
            paint_b,
        ),
        painted(g0, b_then_a.0, b, b_at.0, b_at.1, b_reach.0, b_reach.1, paint_b),
        painted(
            GridModel { write: b_then_a.0, ..g0.marked(b) },
            b_then_a.1,
            a,
            a_at.0,
            a_at.1,
            a_reach.0,
            a_reach.1,
            paint_a,
        ),
    ensures
        a_then_b.1 == b_then_a.1,
        g0.marked(a).marked(b).dirty == g0.marked(b).marked(a).dirty,
        (GridModel { write: a_then_b.1, ..g0.marked(a).marked(b) }).flushed() == (GridModel {
            write: b_then_a.1,
            ..g0.marked(b).marked(a)
        }).flushed(),
{
    let w = g0.width as int;
    let ga = GridModel { write: a_then_b.0, ..g0.marked(a) };
    let gb = GridModel { write: b_then_a.0, ..g0.marked(b) };
    assert forall|i: int| 0 <= i < g0.size() implies #[trigger] a_then_b.1[i] == b_then_a.1[i] by {
        let x = i % w;
        let y = i / w;
        assert(ga.neighbor(x + a_reach.0, y + a_reach.1) == g0.neighbor(x + a_reach.0, y + a_reach.1));
        assert(ga.neighbor(x + b_reach.0, y + b_reach.1) == g0.neighbor(x + b_reach.0, y + b_reach.1));
        assert(gb.neighbor(x + a_reach.0, y + a_reach.1) == g0.neighbor(x + a_reach.0, y + a_reach.1));
        assert(gb.neighbor(x + b_reach.0, y + b_reach.1) == g0.neighbor(x + b_reach.0, y + b_reach.1));
        if a.covers(x, y) {
            assert(!b.covers(x, y));
            assert(a_then_b.1[i] == a_then_b.0[i]);
            assert(b_then_a.0[i] == g0.write[i]);
        } else if b.covers(x, y) {
            assert(b_then_a.1[i] == b_then_a.0[i]);
            assert(a_then_b.0[i] == g0.write[i]);
        }
    }
    assert(a_then_b.1 =~= b_then_a.1);
    crate::grid::lemma_mark_order(g0, a, b, a_then_b.1);
}

} // verus!
