use blobrust::{DataDoubleBuffer, DirtyRect, PointDataStore};

fn rect(min_x: u32, max_x: u32, min_y: u32, max_y: u32) -> DirtyRect {
    DirtyRect { min_x, max_x, min_y, max_y }
}

#[test]
fn clean_rect_is_clean() {
    let r = DirtyRect::clean_rect(10, 8);
    assert!(r.is_clean());
}

#[test]
fn clean_rect_fields() {
    let r = DirtyRect::clean_rect(10, 8);
    assert_eq!(r.min_x, 10);
    assert_eq!(r.min_y, 8);
    assert_eq!(r.max_x, 0);
    assert_eq!(r.max_y, 0);
}

#[test]
fn all_dirty_covers_grid() {
    let r = DirtyRect::all_dirty(10, 8);
    assert_eq!(r, rect(0, 10, 0, 8));
    assert!(!r.is_clean());
}

#[test]
fn box_is_not_clean() {
    assert!(!rect(2, 4, 3, 5).is_clean());
    // an inverted rectangle on one axis only is not the clean sentinel
    assert!(!rect(4, 2, 3, 5).is_clean());
}

#[test]
fn union_with_clean_is_identity() {
    let clean = DirtyRect::clean_rect(10, 10);
    let a = rect(2, 4, 3, 5);
    assert_eq!(clean.union(&a), a);
    assert_eq!(a.union(&clean), a);
    assert!(clean.union(&clean).is_clean());
}

#[test]
fn union_is_bounding_box() {
    let a = rect(1, 3, 1, 3);
    let b = rect(7, 9, 6, 8);
    assert_eq!(a.union(&b), rect(1, 9, 1, 8));
}

#[test]
fn union_order_does_not_matter() {
    let a = rect(1, 3, 5, 9);
    let b = rect(4, 6, 0, 2);
    let c = rect(0, 2, 3, 4);
    assert_eq!(a.union(&b), b.union(&a));
    assert_eq!(a.union(&b).union(&c), a.union(&b.union(&c)));
    assert_eq!(a.union(&b).union(&c), rect(0, 6, 0, 9));
}

#[test]
fn double_buffer_flush_copies_writes() {
    let mut d = DataDoubleBuffer::new(vec![1u32, 2, 3, 4]);
    assert_eq!(d.len(), 4);
    d.get_mut()[2] = 30;
    assert_eq!(d.get_imm(), &[1, 2, 3, 4]);
    assert_eq!(d.get_clone(), vec![1, 2, 30, 4]);
    d.flush();
    assert_eq!(d.get_imm(), &[1, 2, 30, 4]);
    assert_eq!(d.get_clone(), vec![1, 2, 30, 4]);
}

#[test]
fn double_buffer_empty() {
    let mut d: DataDoubleBuffer<u8> = DataDoubleBuffer::new(Vec::new());
    assert_eq!(d.len(), 0);
    d.flush();
    assert!(d.get_imm().is_empty());
}

fn store_4x3() -> PointDataStore<u32> {
    PointDataStore::new((0..12).collect(), 4, 3)
}

#[test]
fn store_new_has_both_buffers_and_clean_rects() {
    let s = store_4x3();
    assert_eq!(s.get(1, 2), 9);
    assert_eq!(s.get_clone(), (0..12).collect::<Vec<u32>>());
    assert!(s.get_dirty().is_clean());
    assert!(s.get_last_dirty().is_clean());
    assert_eq!(s.get_width(), 4);
    assert_eq!(s.get_height(), 3);
}

#[test]
fn store_try_get_edges() {
    let s = store_4x3();
    assert_eq!(s.try_get(0, 0), Some(0));
    assert_eq!(s.try_get(3, 2), Some(11));
    assert_eq!(s.try_get(-1, 0), None);
    assert_eq!(s.try_get(0, -1), None);
    assert_eq!(s.try_get(4, 0), None);
    assert_eq!(s.try_get(0, 3), None);
}

#[test]
fn store_write_is_not_read_before_flush() {
    let mut s = store_4x3();
    s.set_dirty(rect(1, 3, 1, 2));
    *s.get_mut(2, 1) = 100;
    assert_eq!(s.get(2, 1), 6);
    assert_eq!(s.get_clone()[6], 100);
    s.flush();
    assert_eq!(s.get(2, 1), 100);
    assert_eq!(*s.get_last_dirty(), rect(1, 3, 1, 2));
    assert!(s.get_dirty().is_clean());
}

#[test]
fn set_dirty_accumulates() {
    let mut s = store_4x3();
    s.set_dirty(rect(0, 1, 0, 1));
    s.set_dirty(rect(3, 4, 2, 3));
    assert_eq!(*s.get_dirty(), rect(0, 4, 0, 3));
}

#[test]
fn flush_copies_only_dirty_rect() {
    let mut t = store_4x3();
    t.set_dirty(rect(1, 2, 0, 2));
    *t.get_mut(1, 0) = 50;
    *t.get_mut(1, 1) = 51;
    t.flush();
    assert_eq!(t.get(1, 0), 50);
    assert_eq!(t.get(1, 1), 51);
    assert_eq!(t.get(0, 0), 0);
    assert_eq!(t.get(2, 1), 6);
    assert_eq!(t.get(1, 2), 9);
}

#[test]
fn flush_of_whole_grid() {
    let mut s = store_4x3();
    s.set_dirty(DirtyRect::all_dirty(4, 3));
    for y in 0..3 {
        for x in 0..4 {
            *s.get_mut(x, y) += 100;
        }
    }
    s.flush();
    assert_eq!(s.get(0, 0), 100);
    assert_eq!(s.get(3, 2), 111);
}

#[test]
fn second_flush_changes_nothing() {
    let mut s = store_4x3();
    s.set_dirty(rect(0, 2, 0, 2));
    *s.get_mut(1, 1) = 77;
    s.flush();
    let read_after_first: Vec<u32> =
        (0..3).flat_map(|y| (0..4).map(move |x| (x, y))).map(|(x, y)| s.get(x, y)).collect();
    s.flush();
    let read_after_second: Vec<u32> =
        (0..3).flat_map(|y| (0..4).map(move |x| (x, y))).map(|(x, y)| s.get(x, y)).collect();
    assert_eq!(read_after_first, read_after_second);
    assert!(s.get_dirty().is_clean());
    assert!(s.get_last_dirty().is_clean());
}

#[test]
fn flip_hoz_mirrors_rows() {
    let mut s = store_4x3();
    s.flip_hoz();
    assert_eq!(s.get_clone(), vec![3, 2, 1, 0, 7, 6, 5, 4, 11, 10, 9, 8]);
    assert_eq!(*s.get_dirty(), DirtyRect::all_dirty(4, 3));
    // the read buffer still holds the old content until a flush
    assert_eq!(s.get(0, 0), 0);
    s.flush();
    assert_eq!(s.get(0, 0), 3);
}
