//! Cursor extractor behavior.

use lamco_wayland::cursor::{CursorExtractor, CursorInfo};

#[test]
fn test_cursor_info_default() {
    let info = CursorInfo::default();
    assert_eq!(info.position, (0, 0));
    assert!(info.visible);
    assert!(info.bitmap.is_none());
}

#[test]
fn test_cursor_extractor() {
    let mut extractor = CursorExtractor::new();

    assert!(!extractor.has_moved());

    extractor.update_position(100, 200);
    assert_eq!(extractor.current_cursor().map(|c| c.position), Some((100, 200)));
    assert!(extractor.has_moved());
    assert_eq!(extractor.position_delta(), (100, 200));

    extractor.update_position(150, 250);
    assert_eq!(extractor.position_delta(), (50, 50));
}

#[test]
fn test_bitmap_update() {
    let mut extractor = CursorExtractor::new();

    let bitmap = vec![255u8; 32 * 32 * 4];
    extractor.update_bitmap(bitmap.clone(), 32, 32, 0, 0);

    let cursor = extractor.cursor_state();
    assert_eq!(cursor.size, (32, 32));
    assert!(cursor.bitmap.is_some());
    assert_eq!(cursor.serial, 1);
}

#[test]
fn test_visibility() {
    let mut extractor = CursorExtractor::new();

    assert!(extractor.current_cursor().is_some());

    extractor.update_visibility(false);
    assert!(extractor.current_cursor().is_none());

    // The raw state is available whatever the visibility.
    assert!(!extractor.cursor_state().visible);
}

#[test]
fn test_bitmap_cache() {
    let mut extractor = CursorExtractor::with_cache_size(2);

    extractor.update_bitmap(vec![1], 1, 1, 0, 0);
    let serial1 = extractor.cursor_state().serial;

    extractor.update_bitmap(vec![2], 1, 1, 0, 0);
    let serial2 = extractor.cursor_state().serial;

    extractor.update_bitmap(vec![3], 1, 1, 0, 0);
    let serial3 = extractor.cursor_state().serial;

    // The oldest entry left the cache.
    assert!(extractor.get_cached_bitmap(serial1).is_none());
    assert!(extractor.get_cached_bitmap(serial2).is_some());
    assert!(extractor.get_cached_bitmap(serial3).is_some());
}

#[test]
fn cursor_test_stats() {
    let mut extractor = CursorExtractor::new();

    extractor.update_position(10, 20);
    extractor.update_position(30, 40);
    extractor.update_bitmap(vec![1], 1, 1, 0, 0);
    extractor.update_visibility(false);
    extractor.update_visibility(true);

    let stats = extractor.stats();
    assert_eq!(stats.position_updates, 2);
    assert_eq!(stats.bitmap_updates, 1);
    assert_eq!(stats.visibility_changes, 2);
}

#[test]
fn test_cursor_age() {
    // Age is the clock reading minus the update time, floored at zero when
    // the clock reads earlier.
    let mut info = CursorInfo::default();
    info.timestamp_ms = 1000;
    assert_eq!(info.age(1500), 500);
    assert_eq!(info.age(1000), 0);
    assert_eq!(info.age(400), 0);
}
