//! Damage region and tracker behavior.  Area thresholds are integers in
//! thousandths of the frame area.

use lamco_wayland::damage::{DamageRegion, DamageTracker};

#[test]
fn test_damage_region_basic() {
    let region = DamageRegion::new(10, 20, 100, 50);

    assert_eq!(region.area(), 5000);
    assert!(region.contains(50, 40));
    assert!(!region.contains(0, 0));
}

#[test]
fn test_region_overlap() {
    let a = DamageRegion::new(0, 0, 100, 100);
    let b = DamageRegion::new(50, 50, 100, 100);
    let c = DamageRegion::new(200, 200, 50, 50);

    assert!(a.overlaps(&b));
    assert!(b.overlaps(&a));
    assert!(!a.overlaps(&c));
}

#[test]
fn test_region_merge() {
    let a = DamageRegion::new(0, 0, 100, 100);
    let b = DamageRegion::new(50, 50, 100, 100);

    let merged = a.merge(&b);
    assert_eq!(merged.x, 0);
    assert_eq!(merged.y, 0);
    assert_eq!(merged.width, 150);
    assert_eq!(merged.height, 150);
}

#[test]
fn test_region_clip() {
    let region = DamageRegion::new(900, 500, 200, 200);
    let clipped = region.clip(1000, 600);

    assert!(clipped.is_some());
    let c = clipped.expect("should clip");
    assert_eq!(c.width, 100);
    assert_eq!(c.height, 100);
}

#[test]
fn test_damage_tracker_basic() {
    let mut tracker = DamageTracker::new(1920, 1080);

    assert!(!tracker.has_damage());

    tracker.add_region(DamageRegion::new(0, 0, 100, 100));
    assert!(tracker.has_damage());
    assert_eq!(tracker.region_count(), 1);

    tracker.clear();
    assert!(!tracker.has_damage());
}

#[test]
fn test_damage_tracker_merge() {
    let mut tracker = DamageTracker::new(1920, 1080);

    // Overlapping regions fold into one.
    tracker.add_region(DamageRegion::new(0, 0, 100, 100));
    tracker.add_region(DamageRegion::new(50, 50, 100, 100));

    assert_eq!(tracker.region_count(), 1);
}

#[test]
fn test_should_full_update() {
    let mut tracker = DamageTracker::with_threshold(100, 100, 500);
    let frame_size = (100, 100);

    // Under half the frame damaged: partial update.
    tracker.add_region(DamageRegion::new(0, 0, 40, 40));
    assert!(!tracker.should_full_update(frame_size));

    tracker.clear();

    // Over half the frame damaged: full update.
    tracker.add_region(DamageRegion::new(0, 0, 80, 80));
    assert!(tracker.should_full_update(frame_size));
}

#[test]
fn test_bounding_box() {
    let mut tracker = DamageTracker::new(1920, 1080);
    tracker.set_merging(false);

    tracker.add_region(DamageRegion::new(10, 10, 50, 50));
    tracker.add_region(DamageRegion::new(200, 200, 30, 30));

    let bbox = tracker.bounding_box();
    assert!(bbox.is_some());

    let b = bbox.expect("should have bbox");
    assert_eq!(b.x, 10);
    assert_eq!(b.y, 10);
    assert_eq!(b.width, 220);
    assert_eq!(b.height, 220);
}

#[test]
fn test_add_region_idempotent() {
    // Folding in a region that an accumulated region already covers leaves
    // the set — and so the full-update decision — unchanged.
    let mut tracker = DamageTracker::new(1920, 1080);
    let r = DamageRegion::new(10, 10, 50, 50);
    tracker.add_region(r);
    tracker.add_region(DamageRegion::new(40, 40, 50, 50));
    let regions_before = tracker.damaged_regions().clone();
    let decision_before = tracker.should_full_update((1920, 1080));

    tracker.add_region(r);
    assert_eq!(tracker.damaged_regions().len(), regions_before.len());
    assert_eq!(tracker.should_full_update((1920, 1080)), decision_before);
}

#[test]
fn test_add_region_clips_to_frame() {
    // Regions are stored post-clip: an overflowing region is cut to the
    // frame, one entirely outside contributes nothing.
    let mut tracker = DamageTracker::new(100, 100);
    tracker.add_region(DamageRegion::new(0, 0, 200, 200));
    assert_eq!(tracker.region_count(), 1);
    let stored = tracker.damaged_regions()[0];
    assert_eq!((stored.x, stored.y, stored.width, stored.height), (0, 0, 100, 100));

    tracker.clear();
    tracker.add_region(DamageRegion::new(150, 0, 10, 10));
    assert_eq!(tracker.region_count(), 0);
}
