//! Hardware cursor extraction.
//!
//! Tracks cursor position, hotspot, visibility and bitmap across frames, so
//! a remote-desktop client can render the cursor separately from the video
//! stream.  Bitmaps are serial-numbered, and a small FIFO cache keeps the
//! most recent ones.

use crate::util::{now_millis, sat_inc};
use vstd::prelude::*;

verus! {

/// Cursor state extracted from capture metadata.
#[derive(Debug)]
pub struct CursorInfo {
    /// Cursor position in screen coordinates.
    pub position: (i32, i32),
    /// Hotspot offset within the cursor bitmap.
    pub hotspot: (i32, i32),
    /// Cursor bitmap size.
    pub size: (u32, u32),
    /// Cursor bitmap in BGRA, when one has been delivered.
    pub bitmap: Option<Vec<u8>>,
    /// Whether the cursor is currently visible.
    pub visible: bool,
    /// Wall-clock time of the last update, in milliseconds.
    pub timestamp_ms: u64,
    /// Serial number, advanced on each bitmap change.
    pub serial: u64,
}

impl Default for CursorInfo {
    /// A visible cursor at the origin with no bitmap.
    fn default() -> (r: CursorInfo)
        ensures
            r.position == (0i32, 0i32),
            r.hotspot == (0i32, 0i32),
            r.size == (0u32, 0u32),
            r.bitmap is None,
            r.visible == true,
            r.serial == 0,
    {
        CursorInfo {
            position: (0, 0),
            hotspot: (0, 0),
            size: (0, 0),
            bitmap: None,
            visible: true,
            timestamp_ms: now_millis(),
            serial: 0,
        }
    }
}

impl CursorInfo {
    /// Whether the bitmap changed since a previously observed serial.
    pub fn has_bitmap_changed(&self, previous_serial: u64) -> (r: bool)
        ensures
            r == (self.serial != previous_serial && self.bitmap is Some),
    {
        self.serial != previous_serial && self.bitmap.is_some()
    }

    /// Milliseconds between the last update and the reading `now_ms`; zero
    /// when the reading is earlier than the update.
    pub fn age(&self, now_ms: u64) -> (r: u64)
        ensures
            r == if now_ms >= self.timestamp_ms {
                now_ms - self.timestamp_ms
            } else {
                0int
            },
    {
        if now_ms >= self.timestamp_ms {
            now_ms - self.timestamp_ms
        } else {
            0
        }
    }
}

/// Cursor extraction statistics.
#[derive(Debug, Clone, Copy, PartialEq, Eq, Structural)]
pub struct CursorStats {
    /// Number of position updates.
    pub position_updates: u64,
    /// Number of bitmap updates.
    pub bitmap_updates: u64,
    /// Number of visibility changes.
    pub visibility_changes: u64,
}

/// Cursor statistics with all counters at zero.
pub open spec fn spec_zero_cursor_stats() -> CursorStats {
    CursorStats { position_updates: 0, bitmap_updates: 0, visibility_changes: 0 }
}

impl Default for CursorStats {
    /// All counters start at zero.
    fn default() -> (r: CursorStats)
        ensures
            r == spec_zero_cursor_stats(),
    {
        CursorStats { position_updates: 0, bitmap_updates: 0, visibility_changes: 0 }
    }
}

/// The first cached bitmap with the given serial, scanning from the oldest.
pub open spec fn spec_cache_lookup(c: Seq<(u64, Vec<u8>)>, serial: u64) -> Option<Seq<u8>>
    decreases c.len(),
{
    if c.len() == 0 {
        None
    } else if c[0].0 == serial {
        Some(c[0].1@)
    } else {
        spec_cache_lookup(c.drop_first(), serial)
    }
}

/// Tracks cursor state across frames with change detection and a FIFO
/// bitmap cache.
pub struct CursorExtractor {
    current: CursorInfo,
    previous_position: (i32, i32),
    bitmap_cache: Vec<(u64, Vec<u8>)>,
    max_cache_entries: usize,
    stats: CursorStats,
}

impl CursorExtractor {
    /// The current cursor state.
    pub closed spec fn spec_current(self) -> CursorInfo {
        self.current
    }

    /// The position before the last update.
    pub closed spec fn spec_previous_position(self) -> (i32, i32) {
        self.previous_position
    }

    /// The cached `(serial, bitmap)` pairs, oldest first.
    pub closed spec fn spec_cache(self) -> Seq<(u64, Vec<u8>)> {
        self.bitmap_cache@
    }

    /// The cache capacity.
    pub closed spec fn spec_max_cache_entries(self) -> usize {
        self.max_cache_entries
    }

    /// The statistics counters.
    pub closed spec fn spec_stats(self) -> CursorStats {
        self.stats
    }

    /// Well-formedness: the cache has room for at least one entry and never
    /// exceeds its capacity.
    pub open spec fn wf(self) -> bool {
        &&& self.spec_max_cache_entries() >= 1
        &&& self.spec_cache().len() <= self.spec_max_cache_entries()
    }

    /// Create an extractor with the default cache of eight bitmaps.
    pub fn new() -> (r: CursorExtractor)
        ensures
            r.wf(),
            r.spec_current().position == (0i32, 0i32),
            r.spec_current().visible == true,
            r.spec_current().bitmap is None,
            r.spec_current().serial == 0,
            r.spec_previous_position() == (0i32, 0i32),
            r.spec_cache().len() == 0,
            r.spec_max_cache_entries() == 8,
            r.spec_stats() == spec_zero_cursor_stats(),
    {
        CursorExtractor {
            current: CursorInfo::default(),
            previous_position: (0, 0),
            bitmap_cache: Vec::new(),
            max_cache_entries: 8,
            stats: CursorStats::default(),
        }
    }

    /// Create an extractor with a custom cache capacity of at least one.
    pub fn with_cache_size(max_entries: usize) -> (r: CursorExtractor)
        requires
            max_entries >= 1,
        ensures
            r.wf(),
            r.spec_current().position == (0i32, 0i32),
            r.spec_current().visible == true,
            r.spec_current().bitmap is None,
            r.spec_current().serial == 0,
            r.spec_previous_position() == (0i32, 0i32),
            r.spec_cache().len() == 0,
            r.spec_max_cache_entries() == max_entries,
            r.spec_stats() == spec_zero_cursor_stats(),
    {
        let mut r = Self::new();
        r.max_cache_entries = max_entries;
        r
    }

    /// Update the cursor position.
    pub fn update_position(&mut self, x: i32, y: i32)
        requires
            old(self).wf(),
        ensures
            final(self).wf(),
            final(self).spec_current().position == (x, y),
            final(self).spec_current().hotspot == old(self).spec_current().hotspot,
            final(self).spec_current().size == old(self).spec_current().size,
            final(self).spec_current().bitmap == old(self).spec_current().bitmap,
            final(self).spec_current().visible == old(self).spec_current().visible,
            final(self).spec_current().serial == old(self).spec_current().serial,
            final(self).spec_previous_position() == old(self).spec_current().position,
            final(self).spec_cache() == old(self).spec_cache(),
            final(self).spec_max_cache_entries() == old(self).spec_max_cache_entries(),
            final(self).spec_stats() == (CursorStats {
                position_updates: sat_inc(old(self).spec_stats().position_updates),
                ..old(self).spec_stats()
            }),
    {
        self.previous_position = self.current.position;
        self.current.position = (x, y);
        self.current.timestamp_ms = now_millis();
        self.stats.position_updates = crate::util::counter_inc(self.stats.position_updates);
    }

    /// Update the cursor visibility; only an actual change counts.
    pub fn update_visibility(&mut self, visible: bool)
        requires
            old(self).wf(),
        ensures
            final(self).wf(),
            final(self).spec_current() == (CursorInfo {
                visible,
                ..old(self).spec_current()
            }),
            final(self).spec_previous_position() == old(self).spec_previous_position(),
            final(self).spec_cache() == old(self).spec_cache(),
            final(self).spec_max_cache_entries() == old(self).spec_max_cache_entries(),
            final(self).spec_stats() == if old(self).spec_current().visible != visible {
                CursorStats {
                    visibility_changes: sat_inc(old(self).spec_stats().visibility_changes),
                    ..old(self).spec_stats()
                }
            } else {
                old(self).spec_stats()
            },
    {
        if self.current.visible != visible {
            self.current.visible = visible;
            self.stats.visibility_changes = crate::util::counter_inc(
                self.stats.visibility_changes,
            );
        }
    }

    /// Update the cursor bitmap: the serial advances, the bitmap joins the
    /// FIFO cache (evicting the oldest entry when full), and the new bitmap
    /// becomes current.
    pub fn update_bitmap(&mut self, bitmap: Vec<u8>, width: u32, height: u32, hotspot_x: i32, hotspot_y: i32)
        requires
            old(self).wf(),
        ensures
            final(self).wf(),
            final(self).spec_current().serial == sat_inc(old(self).spec_current().serial),
            final(self).spec_current().size == (width, height),
            final(self).spec_current().hotspot == (hotspot_x, hotspot_y),
            final(self).spec_current().bitmap is Some && final(self).spec_current().bitmap->Some_0@ == bitmap@,
            final(self).spec_current().position == old(self).spec_current().position,
            final(self).spec_current().visible == old(self).spec_current().visible,
            final(self).spec_previous_position() == old(self).spec_previous_position(),
            final(self).spec_max_cache_entries() == old(self).spec_max_cache_entries(),
            final(self).spec_stats() == (CursorStats {
                bitmap_updates: sat_inc(old(self).spec_stats().bitmap_updates),
                ..old(self).spec_stats()
            }),
            final(self).spec_cache().len() >= 1,
            final(self).spec_cache().last().0 == final(self).spec_current().serial,
            final(self).spec_cache().last().1@ == bitmap@,
            final(self).spec_cache().drop_last() == if old(self).spec_cache().len() >= old(
                self,
            ).spec_max_cache_entries() {
                old(self).spec_cache().drop_first()
            } else {
                old(self).spec_cache()
            },
    {
        self.current.serial = crate::util::counter_inc(self.current.serial);
        self.current.size = (width, height);
        self.current.hotspot = (hotspot_x, hotspot_y);
        self.current.timestamp_ms = now_millis();
        let cached = crate::util::clone_bytes(&bitmap);
        if self.bitmap_cache.len() >= self.max_cache_entries {
            self.bitmap_cache.remove(0);
            proof {
                assert(self.bitmap_cache@ == old(self).spec_cache().drop_first());
            }
        }
        self.bitmap_cache.push((self.current.serial, cached));
        self.current.bitmap = Some(bitmap);
        self.stats.bitmap_updates = crate::util::counter_inc(self.stats.bitmap_updates);
        proof {
            assert(self.bitmap_cache@.drop_last() =~= self.bitmap_cache@.take(
                self.bitmap_cache@.len() - 1,
            ));
        }
    }

    /// Update position, visibility and (when present) the bitmap from raw
    /// capture metadata.
    pub fn update_from_raw(
        &mut self,
        position: (i32, i32),
        hotspot: (i32, i32),
        size: (u32, u32),
        bitmap: Option<Vec<u8>>,
        visible: bool,
    )
        requires
            old(self).wf(),
        ensures
            final(self).wf(),
            final(self).spec_current().position == position,
            final(self).spec_current().visible == visible,
            final(self).spec_previous_position() == old(self).spec_current().position,
            bitmap is Some ==> final(self).spec_current().serial == sat_inc(
                old(self).spec_current().serial,
            ) && final(self).spec_current().bitmap is Some && final(self).spec_current().bitmap->Some_0@ == bitmap->Some_0@,
            bitmap is None ==> final(self).spec_current().serial == old(
                self,
            ).spec_current().serial && final(self).spec_current().bitmap == old(
                self,
            ).spec_current().bitmap,
            final(self).spec_max_cache_entries() == old(self).spec_max_cache_entries(),
    {
        self.update_position(position.0, position.1);
        self.update_visibility(visible);
        if let Some(bmp) = bitmap {
            self.update_bitmap(bmp, size.0, size.1, hotspot.0, hotspot.1);
        }
    }

    /// The current cursor, only while it is visible.
    pub fn current_cursor(&self) -> (r: Option<&CursorInfo>)
        ensures
            (r is Some) == self.spec_current().visible,
            r is Some ==> *r->Some_0 == self.spec_current(),
    {
        if self.current.visible {
            Some(&self.current)
        } else {
            None
        }
    }

    /// The current cursor state, whatever its visibility.
    pub fn cursor_state(&self) -> (r: &CursorInfo)
        ensures
            *r == self.spec_current(),
    {
        &self.current
    }

    /// The position change since the previous update.
    pub fn position_delta(&self) -> (r: (i32, i32))
        requires
            i32::MIN <= self.spec_current().position.0 - self.spec_previous_position().0
                <= i32::MAX,
            i32::MIN <= self.spec_current().position.1 - self.spec_previous_position().1
                <= i32::MAX,
        ensures
            r.0 == self.spec_current().position.0 - self.spec_previous_position().0,
            r.1 == self.spec_current().position.1 - self.spec_previous_position().1,
    {
        (
            self.current.position.0 - self.previous_position.0,
            self.current.position.1 - self.previous_position.1,
        )
    }

    /// Whether the cursor moved in the last update.
    pub fn has_moved(&self) -> (r: bool)
        ensures
            r == (self.spec_current().position != self.spec_previous_position()),
    {
        self.current.position.0 != self.previous_position.0 || self.current.position.1
            != self.previous_position.1
    }

    /// Look up a cached bitmap by serial, oldest first.
    pub fn get_cached_bitmap(&self, serial: u64) -> (r: Option<&Vec<u8>>)
        ensures
            (r is Some) == (spec_cache_lookup(self.spec_cache(), serial) is Some),
            r is Some ==> Some(r->Some_0@) == spec_cache_lookup(self.spec_cache(), serial),
    {
        let mut i: usize = 0;
        proof {
            assert(self.spec_cache().skip(0) =~= self.spec_cache());
        }
        while i < self.bitmap_cache.len()
            invariant
                0 <= i <= self.spec_cache().len(),
                spec_cache_lookup(self.spec_cache(), serial) == spec_cache_lookup(
                    self.spec_cache().skip(i as int),
                    serial,
                ),
            decreases self.bitmap_cache.len() - i,
        {
            proof {
                assert(self.spec_cache().skip(i as int)[0] == self.spec_cache()[i as int]);
                assert(self.spec_cache().skip(i as int).drop_first() =~= self.spec_cache().skip(
                    i as int + 1,
                ));
            }
            if self.bitmap_cache[i].0 == serial {
                return Some(&self.bitmap_cache[i].1);
            }
            i = i + 1;
        }
        proof {
            assert(self.spec_cache().skip(self.spec_cache().len() as int).len() == 0);
        }
        None
    }

    /// The statistics counters.
    pub fn stats(&self) -> (r: &CursorStats)
        ensures
            *r == self.spec_stats(),
    {
        &self.stats
    }

    /// Reset to the initial state, keeping the cache capacity and the
    /// statistics.
    pub fn reset(&mut self)
        requires
            old(self).wf(),
        ensures
            final(self).wf(),
            final(self).spec_current().position == (0i32, 0i32),
            final(self).spec_current().visible == true,
            final(self).spec_current().bitmap is None,
            final(self).spec_current().serial == 0,
            final(self).spec_previous_position() == (0i32, 0i32),
            final(self).spec_cache().len() == 0,
            final(self).spec_max_cache_entries() == old(self).spec_max_cache_entries(),
            final(self).spec_stats() == old(self).spec_stats(),
    {
        self.current = CursorInfo::default();
        self.previous_position = (0, 0);
        self.bitmap_cache.clear();
    }
}

impl Default for CursorExtractor {
    /// Same as `CursorExtractor::new`.
    fn default() -> (r: CursorExtractor)
        ensures
            r.wf(),
            r.spec_cache().len() == 0,
            r.spec_max_cache_entries() == 8,
            r.spec_stats() == spec_zero_cursor_stats(),
    {
        CursorExtractor::new()
    }
}

} // verus!
