use blobrust::{BlobCanvas, Color, DirtyRect, DrawPoint, Level, MAX_UNDOS};

fn unit(word: u32) -> f32 {
    (word as f32) / (u32::MAX as f32)
}

/// A cell as (threshold band, colour band).
type Cell = (f32, f32);

fn fresh_cell(word: u32) -> Cell {
    (0.0, unit(word))
}

fn word_cell(word: u32) -> u32 {
    word
}

fn read_all<T: Copy>(c: &BlobCanvas<T>) -> Vec<T> {
    let d = c.get_data();
    let mut out = Vec::new();
    for y in 0..c.get_height() {
        for x in 0..c.get_width() {
            out.push(d.get(x, y));
        }
    }
    out
}

fn paint_full(_dx: i32, _dy: i32, cell: Cell, _n: Option<Cell>) -> Cell {
    // curve 0, mult 1: the falloff is 1 everywhere in the square
    let k = 1.0f32;
    let thresh = (cell.0 * (1.0 - k) + k).max(cell.0).clamp(0.0, 1.0);
    let color = (cell.1 * (1.0 - 4.0 * k) + 4.0 * k).clamp(0.0, 1.0);
    (thresh, color)
}

#[test]
fn new_canvas_is_reproducible() {
    let a = BlobCanvas::new(10, 10, fresh_cell);
    let b = BlobCanvas::new(10, 10, fresh_cell);
    assert_eq!(a.get_data().get_clone(), b.get_data().get_clone());
    assert_eq!(read_all(&a), a.get_data().get_clone());
    let cells = a.get_data().get_clone();
    assert!(cells.iter().all(|c| c.0 == 0.0 && (0.0..=1.0).contains(&c.1)));
    assert!(cells.iter().any(|c| c.1 != cells[0].1));
}

#[test]
fn new_canvas_draws_distinct_words() {
    let a = BlobCanvas::new(4, 4, word_cell);
    let cells = a.get_data().get_clone();
    let mut sorted = cells.clone();
    sorted.sort();
    sorted.dedup();
    assert_eq!(sorted.len(), 16);
    assert_eq!(a.get_time(), 0);
}

#[test]
fn draw_buffer_is_five_percent_of_cells() {
    assert_eq!(BlobCanvas::new(10, 10, word_cell).get_draw_buffer_size(), 5);
    assert_eq!(BlobCanvas::new(20, 20, word_cell).get_draw_buffer_size(), 20);
    assert_eq!(BlobCanvas::new(3, 3, word_cell).get_draw_buffer_size(), 0);
    assert_eq!(BlobCanvas::new(256, 256, word_cell).get_draw_buffer_size(), 3276);
}

#[test]
fn draw_buffer_starts_with_default_points() {
    let c = BlobCanvas::new(10, 10, word_cell);
    let default = DrawPoint { x: 0, y: 0, col: Color::X };
    assert_eq!(DrawPoint::default(), default);
    assert_eq!(Color::default(), Color::X);
    assert!(c.get_draw_buffer().iter().all(|p| *p == default));
}

#[test]
fn paint_square_on_ten_by_ten() {
    let mut c = BlobCanvas::new(10, 10, fresh_cell);
    // x_norm = y_norm = 0.5 gives pixel (5, 5); size 4 gives half-width 2
    c.apply_brush_internal(5, 5, 2, 0, 0, &paint_full);
    c.tick(0);
    let d = c.get_data();
    for y in 0..10u32 {
        for x in 0..10u32 {
            let inside = (3..7).contains(&x) && (3..7).contains(&y);
            if inside {
                assert!(d.get(x, y).0 > 0.0, "cell ({}, {})", x, y);
            } else {
                assert_eq!(d.get(x, y).0, 0.0, "cell ({}, {})", x, y);
            }
        }
    }
    assert_eq!(*d.get_last_dirty(), DirtyRect { min_x: 3, max_x: 7, min_y: 3, max_y: 7 });
}

#[test]
fn stroke_is_not_read_before_tick() {
    let mut c = BlobCanvas::new(10, 10, fresh_cell);
    c.apply_brush_internal(5, 5, 2, 0, 0, &paint_full);
    assert_eq!(c.get_data().get(5, 5).0, 0.0);
    assert_eq!(c.get_data().get_clone()[55].0, 1.0);
    assert_eq!(*c.get_data().get_dirty(), DirtyRect { min_x: 3, max_x: 7, min_y: 3, max_y: 7 });
}

#[test]
fn push_then_pop_on_fresh_canvas() {
    let mut c = BlobCanvas::new(10, 10, fresh_cell);
    let pristine = c.get_data().get_clone();
    c.push_undo();
    assert!(c.try_pop_undo());
    assert_eq!(c.get_data().get_clone(), pristine);
    assert_eq!(read_all(&c), pristine);
    assert!(c.get_data().get_dirty().is_clean());
    assert!(c.get_data().get_last_dirty().is_clean());
    assert!(!c.try_pop_undo());
    assert_eq!(c.get_data().get_clone(), pristine);
}

#[test]
fn undo_round_trip_after_stroke() {
    let mut c = BlobCanvas::new(10, 10, fresh_cell);
    c.apply_brush_internal(2, 2, 1, 0, 0, &paint_full);
    c.tick(10);
    let write_before = c.get_data().get_clone();
    let read_before = read_all(&c);
    c.push_undo();
    c.apply_brush_internal(5, 5, 2, 0, 0, &paint_full);
    c.tick(10);
    assert_ne!(c.get_data().get_clone(), write_before);
    assert!(c.try_pop_undo());
    assert_eq!(c.get_data().get_clone(), write_before);
    assert_eq!(read_all(&c), read_before);
}

#[test]
fn undo_history_keeps_the_newest_eight() {
    let mut c = BlobCanvas::new(4, 4, word_cell);
    let mut states = Vec::new();
    for i in 0..10u32 {
        c.apply_brush_internal(1, 1, 1, 0, 0, &move |_dx: i32, _dy: i32, _c: u32, _n: Option<u32>| i);
        c.tick(1);
        states.push(c.get_data().get_clone());
        c.push_undo();
    }
    for i in (10 - MAX_UNDOS..10).rev() {
        assert!(c.try_pop_undo());
        assert_eq!(c.get_data().get_clone(), states[i]);
    }
    assert!(!c.try_pop_undo());
    assert_eq!(c.get_data().get_clone(), states[10 - MAX_UNDOS]);
}

#[test]
fn clear_refills_and_can_be_undone() {
    let mut c = BlobCanvas::new(6, 6, word_cell);
    let before = c.get_data().get_clone();
    c.clear(word_cell);
    let after = c.get_data().get_clone();
    assert_eq!(after.len(), 36);
    assert_ne!(after, before);
    assert_eq!(read_all(&c), after);
    assert!(c.try_pop_undo());
    assert_eq!(c.get_data().get_clone(), before);
}

#[test]
fn tick_advances_and_wraps_time() {
    let mut c = BlobCanvas::new(4, 4, word_cell);
    c.tick(1_000);
    assert_eq!(c.get_time(), 1_000);
    c.tick(u32::MAX);
    assert_eq!(c.get_time(), 999);
}

#[test]
fn stroke_of_half_width_zero_changes_nothing() {
    let mut c = BlobCanvas::new(6, 6, word_cell);
    let before = c.get_data().get_clone();
    c.apply_brush_internal(3, 3, 0, 0, 0, &|_dx: i32, _dy: i32, _c: u32, _n: Option<u32>| 0);
    assert_eq!(c.get_data().get_clone(), before);
    assert!(c.get_data().get_dirty().is_clean());
}

#[test]
fn stroke_off_the_grid_changes_nothing() {
    let mut c = BlobCanvas::new(6, 6, word_cell);
    let before = c.get_data().get_clone();
    c.apply_brush_internal(20, 3, 2, 0, 0, &|_dx: i32, _dy: i32, _c: u32, _n: Option<u32>| 0);
    c.apply_brush_internal(-5, -5, 2, 0, 0, &|_dx: i32, _dy: i32, _c: u32, _n: Option<u32>| 0);
    assert_eq!(c.get_data().get_clone(), before);
    assert!(c.get_data().get_dirty().is_clean());
}

#[test]
fn stroke_is_clipped_at_the_corner() {
    let mut c = BlobCanvas::new(6, 6, word_cell);
    let before = c.get_data().get_clone();
    c.apply_brush_internal(0, 0, 2, 0, 0, &|dx: i32, dy: i32, _c: u32, _n: Option<u32>| {
        (100 + 10 * dx + dy) as u32
    });
    assert_eq!(*c.get_data().get_dirty(), DirtyRect { min_x: 0, max_x: 2, min_y: 0, max_y: 2 });
    let after = c.get_data().get_clone();
    // offsets are centre minus cell
    assert_eq!(after[0], 100);
    assert_eq!(after[1], 90);
    assert_eq!(after[6], 99);
    assert_eq!(after[7], 89);
    for i in 0..36 {
        if ![0usize, 1, 6, 7].contains(&i) {
            assert_eq!(after[i], before[i]);
        }
    }
}

#[test]
fn stroke_neighbors_come_from_read_buffer() {
    let mut c = BlobCanvas::new(20, 3, word_cell);
    let read0 = read_all(&c);
    let take_east = |_dx: i32, _dy: i32, cell: u32, n: Option<u32>| match n {
        Some(v) => v,
        None => cell,
    };
    // every cell of row 1 copies the read-buffer cell 16 to its east
    c.apply_brush_internal(10, 1, 10, 16, 0, &take_east);
    let after = c.get_data().get_clone();
    for x in 0..20usize {
        let i = 20 + x;
        if x + 16 < 20 {
            assert_eq!(after[i], read0[i + 16]);
        } else {
            assert_eq!(after[i], read0[i]);
        }
    }
}

#[test]
fn strokes_on_disjoint_squares_commute() {
    let paint_a = |dx: i32, dy: i32, c: u32, _n: Option<u32>| c.wrapping_add((dx * 3 + dy) as u32);
    let paint_b = |_dx: i32, _dy: i32, c: u32, _n: Option<u32>| c ^ 0xff;
    let mut ab = BlobCanvas::new(12, 12, word_cell);
    let mut ba = BlobCanvas::new(12, 12, word_cell);
    ab.apply_brush_internal(2, 2, 2, 0, 0, &paint_a);
    ab.apply_brush_internal(9, 8, 2, 0, 0, &paint_b);
    ba.apply_brush_internal(9, 8, 2, 0, 0, &paint_b);
    ba.apply_brush_internal(2, 2, 2, 0, 0, &paint_a);
    assert_eq!(ab.get_data().get_dirty(), ba.get_data().get_dirty());
    assert_eq!(*ab.get_data().get_dirty(), DirtyRect { min_x: 0, max_x: 11, min_y: 0, max_y: 10 });
    ab.tick(5);
    ba.tick(5);
    assert_eq!(read_all(&ab), read_all(&ba));
    assert_eq!(ab.get_data().get_last_dirty(), ba.get_data().get_last_dirty());
}

fn classify_by_residue(c: u32, _y: u32) -> Level {
    match c % 3 {
        0 => Level::OnThreshold,
        1 => Level::Above,
        _ => Level::Below,
    }
}

fn pick_below(c: u32, word: u32) -> bool {
    c < word
}

#[test]
fn sample_pixel_follows_the_band() {
    let mut c = BlobCanvas::new(4, 4, |w: u32| w);
    c.apply_brush_internal(2, 2, 2, 0, 0, &|dx: i32, dy: i32, _c: u32, _n: Option<u32>| {
        (2 - dx + 4 * (2 - dy)) as u32
    });
    c.tick(0);
    // cell (x, y) now holds x + 4y for the whole 4x4 grid
    assert_eq!(c.sample_pixel(0, 0, &classify_by_residue, &pick_below), Color::THRESH);
    assert_eq!(c.sample_pixel(2, 0, &classify_by_residue, &pick_below), Color::Z);
    // 1 < word for every word but 0 and 1
    assert_eq!(c.sample_pixel(1, 0, &classify_by_residue, &|_c: u32, _w: u32| true), Color::X);
    assert_eq!(c.sample_pixel(1, 0, &classify_by_residue, &|_c: u32, _w: u32| false), Color::Y);
    assert_eq!(c.sample_pixel(0, 1, &classify_by_residue, &pick_below), Color::X);
}

#[test]
fn sample_pixel_passes_the_row() {
    let mut c = BlobCanvas::new(4, 4, |w: u32| w);
    let by_row = |_c: u32, y: u32| if y >= 2 { Level::Below } else { Level::OnThreshold };
    assert_eq!(c.sample_pixel(1, 3, &by_row, &pick_below), Color::Z);
    assert_eq!(c.sample_pixel(1, 1, &by_row, &pick_below), Color::THRESH);
}

#[test]
fn fill_draw_buffer_uniform_when_nothing_was_flushed() {
    let mut c = BlobCanvas::new(20, 20, |_w: u32| 0u32);
    c.fill_draw_buffer(&|_c: u32, _y: u32| Level::Below, &pick_below);
    let pts = c.get_draw_buffer();
    assert_eq!(pts.len(), 20);
    assert!(pts.iter().all(|p| p.x < 20 && p.y < 20 && p.col == Color::Z));
    assert!(pts.iter().any(|p| p.x != pts[0].x || p.y != pts[0].y));
}

#[test]
fn fill_draw_buffer_samples_last_flushed_rect() {
    let mut c = BlobCanvas::new(20, 20, |_w: u32| 0u32);
    c.apply_brush_internal(15, 15, 1, 0, 0, &|_dx: i32, _dy: i32, _c: u32, _n: Option<u32>| 1);
    c.tick(0);
    // cells holding 1 are on the threshold, the rest below it
    let classify = |v: u32, _y: u32| if v == 1 { Level::OnThreshold } else { Level::Below };
    c.fill_draw_buffer(&classify, &pick_below);
    let pts = c.get_draw_buffer();
    assert_eq!(pts.len(), 20);
    // 19 points over the whole grid, the last one inside [14, 16) x [14, 16)
    let last = pts[19];
    assert!((14..16).contains(&last.x) && (14..16).contains(&last.y));
    assert_eq!(last.col, Color::THRESH);
    for p in pts {
        let inside = (14..16).contains(&p.x) && (14..16).contains(&p.y);
        assert_eq!(p.col, if inside { Color::THRESH } else { Color::Z });
    }
}

#[test]
fn draw_points_keep_low_eight_bits() {
    let mut c = BlobCanvas::new(300, 1, |_w: u32| 0u32);
    c.apply_brush_internal(290, 0, 5, 0, 0, &|_dx: i32, _dy: i32, _c: u32, _n: Option<u32>| 1);
    c.tick(0);
    c.fill_draw_buffer(&|_c: u32, _y: u32| Level::Below, &pick_below);
    let pts = c.get_draw_buffer();
    assert_eq!(pts.len(), 15);
    // the last point lies in columns 285..295, which wrap to 29..39
    assert!((29..39).contains(&pts[14].x));
    assert_eq!(pts[14].y, 0);
}

#[test]
fn clamped_paint_keeps_cells_in_unit_range() {
    let mut c = BlobCanvas::new(16, 16, fresh_cell);
    let fade = |dx: i32, dy: i32, cell: Cell, _n: Option<Cell>| {
        let k = 1.5 / (1.0 + ((dx * dx + dy * dy) as f32).sqrt());
        ((cell.0 * (1.0 - k)).clamp(0.0, 1.0), cell.1)
    };
    for (i, (x, y)) in [(3, 3), (8, 12), (15, 0), (7, 7), (0, 15)].iter().enumerate() {
        if i % 2 == 0 {
            c.apply_brush_internal(*x, *y, 4, 0, 0, &paint_full);
        } else {
            c.apply_brush_internal(*x, *y, 3, 0, 0, &fade);
        }
        c.tick(16_000);
    }
    let in_unit = |v: f32| (0.0..=1.0).contains(&v);
    assert!(c.get_data().get_clone().iter().all(|p| in_unit(p.0) && in_unit(p.1)));
    assert!(read_all(&c).iter().all(|p| in_unit(p.0) && in_unit(p.1)));
}
