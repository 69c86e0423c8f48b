//! Damage-region tracking.
//!
//! Accumulates the rectangles of a frame that changed since the last frame,
//! merges rectangles that overlap or lie within a configured distance of each
//! other, and decides when encoding the whole frame is cheaper than encoding
//! the damaged regions one by one.

use vstd::prelude::*;
use vstd::multiset::Multiset;
use vstd::seq_lib::group_to_multiset_ensures;

verus! {

/// A damaged (changed) rectangle of the screen, with its top-left corner at
/// `(x, y)`.
#[derive(Debug, Clone, Copy, PartialEq, Eq, Structural)]
pub struct DamageRegion {
    /// X coordinate of the top-left corner.
    pub x: u32,
    /// Y coordinate of the top-left corner.
    pub y: u32,
    /// Region width in pixels.
    pub width: u32,
    /// Region height in pixels.
    pub height: u32,
}

/// The region's extents stay representable: `x + width` and `y + height` do
/// not exceed `u32::MAX`, so merging two such regions cannot overflow.
pub open spec fn spec_region_bounded(r: DamageRegion) -> bool {
    &&& r.x + r.width <= u32::MAX
    &&& r.y + r.height <= u32::MAX
}

/// Area of a region, in pixels.
pub open spec fn spec_area(r: DamageRegion) -> int {
    r.width * r.height
}

/// Whether two regions overlap in at least one pixel.
pub open spec fn spec_overlaps(a: DamageRegion, b: DamageRegion) -> bool {
    &&& a.x < b.x + b.width
    &&& a.x + a.width > b.x
    &&& a.y < b.y + b.height
    &&& a.y + a.height > b.y
}

/// The bounding box of two regions.
pub open spec fn spec_merge(a: DamageRegion, b: DamageRegion) -> DamageRegion {
    let x = if a.x <= b.x {
        a.x
    } else {
        b.x
    };
    let y = if a.y <= b.y {
        a.y
    } else {
        b.y
    };
    let x2 = if a.x + a.width >= b.x + b.width {
        a.x + a.width
    } else {
        b.x + b.width
    };
    let y2 = if a.y + a.height >= b.y + b.height {
        a.y + a.height
    } else {
        b.y + b.height
    };
    DamageRegion { x, y, width: (x2 - x) as u32, height: (y2 - y) as u32 }
}

/// Whether region `outer` covers every pixel of region `inner`.
pub open spec fn spec_covers(outer: DamageRegion, inner: DamageRegion) -> bool {
    &&& outer.x <= inner.x
    &&& outer.y <= inner.y
    &&& inner.x + inner.width <= outer.x + outer.width
    &&& inner.y + inner.height <= outer.y + outer.height
}

/// The horizontal gap between two regions; zero when their x-extents touch or
/// overlap.
pub open spec fn spec_gap_x(a: DamageRegion, b: DamageRegion) -> int {
    if a.x + a.width < b.x {
        b.x - (a.x + a.width)
    } else if b.x + b.width < a.x {
        a.x - (b.x + b.width)
    } else {
        0
    }
}

/// The vertical gap between two regions; zero when their y-extents touch or
/// overlap.
pub open spec fn spec_gap_y(a: DamageRegion, b: DamageRegion) -> int {
    if a.y + a.height < b.y {
        b.y - (a.y + a.height)
    } else if b.y + b.height < a.y {
        a.y - (b.y + b.height)
    } else {
        0
    }
}

/// The merging discipline: two regions merge when they overlap, or when the
/// gap between them along each axis is at most `merge_distance`.
pub open spec fn spec_should_merge(a: DamageRegion, b: DamageRegion, merge_distance: u32) -> bool {
    spec_overlaps(a, b) || (spec_gap_x(a, b) <= merge_distance && spec_gap_y(a, b)
        <= merge_distance)
}

/// No two distinct accumulated regions still satisfy the merging discipline.
pub open spec fn spec_pairwise_separated(s: Seq<DamageRegion>, merge_distance: u32) -> bool {
    forall|i: int, j: int|
        0 <= i < s.len() && 0 <= j < s.len() && i != j ==> !spec_should_merge(
            s[i],
            s[j],
            merge_distance,
        )
}

/// A region lies within a `frame_width` by `frame_height` frame and is not
/// degenerate.
pub open spec fn spec_within_frame(r: DamageRegion, frame_width: u32, frame_height: u32) -> bool {
    &&& r.x + r.width <= frame_width
    &&& r.y + r.height <= frame_height
    &&& r.width > 0
    &&& r.height > 0
}

/// The result of clipping a region to frame bounds: `None` when nothing of
/// the region lies inside the frame.
pub open spec fn spec_clip(r: DamageRegion, frame_width: u32, frame_height: u32) -> Option<
    DamageRegion,
> {
    if r.x >= frame_width || r.y >= frame_height {
        None
    } else {
        let w = if r.width <= frame_width - r.x {
            r.width
        } else {
            (frame_width - r.x) as u32
        };
        let h = if r.height <= frame_height - r.y {
            r.height
        } else {
            (frame_height - r.y) as u32
        };
        if w == 0 || h == 0 {
            None
        } else {
            Some(DamageRegion { x: r.x, y: r.y, width: w, height: h })
        }
    }
}

impl DamageRegion {
    /// Create a new damage region.
    pub fn new(x: u32, y: u32, width: u32, height: u32) -> (r: DamageRegion)
        ensures
            r == (DamageRegion { x, y, width, height }),
    {
        DamageRegion { x, y, width, height }
    }

    /// Area of the region in pixels.
    pub fn area(&self) -> (r: u64)
        ensures
            r == spec_area(*self),
    {
        proof {
            assert((self.width as int) * (self.height as int) <= (u32::MAX as int) * (u32::MAX
                as int)) by (nonlinear_arith)
                requires
                    self.width <= u32::MAX && self.height <= u32::MAX,
            ;
        }
        (self.width as u64) * (self.height as u64)
    }

    /// Whether the region contains the pixel at `(x, y)`.
    pub fn contains(&self, x: u32, y: u32) -> (r: bool)
        ensures
            r == (self.x <= x < self.x + self.width && self.y <= y < self.y + self.height),
    {
        x >= self.x && (x as u64) < (self.x as u64) + (self.width as u64) && y >= self.y && (y
            as u64) < (self.y as u64) + (self.height as u64)
    }

    /// Whether this region overlaps another in at least one pixel.
    pub fn overlaps(&self, other: &DamageRegion) -> (r: bool)
        ensures
            r == spec_overlaps(*self, *other),
    {
        (self.x as u64) < (other.x as u64) + (other.width as u64) && (self.x as u64) + (self.width
            as u64) > (other.x as u64) && (self.y as u64) < (other.y as u64) + (other.height
            as u64) && (self.y as u64) + (self.height as u64) > (other.y as u64)
    }

    /// Merge two regions into their bounding box.
    pub fn merge(&self, other: &DamageRegion) -> (r: DamageRegion)
        requires
            spec_region_bounded(*self),
            spec_region_bounded(*other),
        ensures
            r == spec_merge(*self, *other),
    {
        let x = if self.x <= other.x {
            self.x
        } else {
            other.x
        };
        let y = if self.y <= other.y {
            self.y
        } else {
            other.y
        };
        let self_x2 = self.x + self.width;
        let other_x2 = other.x + other.width;
        let self_y2 = self.y + self.height;
        let other_y2 = other.y + other.height;
        let x2 = if self_x2 >= other_x2 {
            self_x2
        } else {
            other_x2
        };
        let y2 = if self_y2 >= other_y2 {
            self_y2
        } else {
            other_y2
        };
        DamageRegion { x, y, width: x2 - x, height: y2 - y }
    }

    /// Clip the region to frame bounds; `None` when nothing remains.
    pub fn clip(&self, frame_width: u32, frame_height: u32) -> (r: Option<DamageRegion>)
        ensures
            r == spec_clip(*self, frame_width, frame_height),
            r is Some ==> spec_within_frame(r->Some_0, frame_width, frame_height),
            r is Some ==> spec_region_bounded(r->Some_0),
    {
        if self.x >= frame_width || self.y >= frame_height {
            return None;
        }
        let width = if self.width <= frame_width - self.x {
            self.width
        } else {
            frame_width - self.x
        };
        let height = if self.height <= frame_height - self.y {
            self.height
        } else {
            frame_height - self.y
        };
        if width == 0 || height == 0 {
            None
        } else {
            Some(DamageRegion { x: self.x, y: self.y, width, height })
        }
    }
}

/// Merging two regions that lie within a frame yields a region within that
/// frame; together with `clip`, every region a tracker accumulates from
/// clipped inputs stays inside the frame with positive extent.
pub proof fn lemma_merge_within_frame(
    a: DamageRegion,
    b: DamageRegion,
    frame_width: u32,
    frame_height: u32,
)
    requires
        spec_within_frame(a, frame_width, frame_height),
        spec_within_frame(b, frame_width, frame_height),
    ensures
        spec_within_frame(spec_merge(a, b), frame_width, frame_height),
{
}

/// The bounding box of two bounded regions is bounded.
pub proof fn lemma_merge_bounded(a: DamageRegion, b: DamageRegion)
    requires
        spec_region_bounded(a),
        spec_region_bounded(b),
    ensures
        spec_region_bounded(spec_merge(a, b)),
{
}

/// The bounding box of two bounded regions covers both of them.
pub proof fn lemma_merge_covers_both(a: DamageRegion, b: DamageRegion)
    requires
        spec_region_bounded(a),
        spec_region_bounded(b),
    ensures
        spec_covers(spec_merge(a, b), a),
        spec_covers(spec_merge(a, b), b),
{
}

/// Coverage of regions is transitive.
pub proof fn lemma_covers_trans(a: DamageRegion, b: DamageRegion, c: DamageRegion)
    requires
        spec_covers(a, b),
        spec_covers(b, c),
    ensures
        spec_covers(a, c),
{
}

/// The merging discipline is symmetric in its two regions.
pub proof fn lemma_should_merge_symmetric(a: DamageRegion, b: DamageRegion, d: u32)
    ensures
        spec_should_merge(a, b, d) == spec_should_merge(b, a, d),
{
}

/// Widening a region can only bring it closer to others: if some region
/// merges with `inner`, it also merges with any region covering `inner`.
pub proof fn lemma_should_merge_monotone(
    inner: DamageRegion,
    outer: DamageRegion,
    other: DamageRegion,
    d: u32,
)
    requires
        spec_covers(outer, inner),
        spec_should_merge(inner, other, d),
    ensures
        spec_should_merge(outer, other, d),
{
}

/// Merging a region into one that already covers it changes nothing.
pub proof fn lemma_merge_into_cover(inner: DamageRegion, outer: DamageRegion)
    requires
        spec_covers(outer, inner),
    ensures
        spec_merge(inner, outer) == outer,
{
}

/// A region covering two regions covers their bounding box.
pub proof fn lemma_cover_of_merge(b: DamageRegion, m: DamageRegion, c: DamageRegion)
    requires
        spec_region_bounded(m),
        spec_region_bounded(c),
        spec_covers(b, m),
        spec_covers(b, c),
    ensures
        spec_covers(b, spec_merge(m, c)),
{
}

/// A region always satisfies the merging discipline with one that covers it.
pub proof fn lemma_covered_should_merge(inner: DamageRegion, outer: DamageRegion, d: u32)
    requires
        spec_covers(outer, inner),
    ensures
        spec_should_merge(inner, outer, d),
{
}

/// Removing a region from a pairwise-separated sequence keeps it separated.
pub proof fn lemma_separated_remove(s: Seq<DamageRegion>, i: int, d: u32)
    requires
        spec_pairwise_separated(s, d),
        0 <= i < s.len(),
    ensures
        spec_pairwise_separated(s.remove(i), d),
{
    let t = s.remove(i);
    assert forall|p: int, q: int|
        0 <= p < t.len() && 0 <= q < t.len() && p != q implies !spec_should_merge(
        t[p],
        t[q],
        d,
    ) by {
        let p0 = if p < i {
            p
        } else {
            p + 1
        };
        let q0 = if q < i {
            q
        } else {
            q + 1
        };
        assert(t[p] == s[p0] && t[q] == s[q0]);
    }
}

/// After removing index `i` from a pairwise-separated sequence, the removed
/// region satisfies the discipline with nothing that remains.
pub proof fn lemma_removed_separated_from_rest(s: Seq<DamageRegion>, i: int, d: u32)
    requires
        spec_pairwise_separated(s, d),
        0 <= i < s.len(),
    ensures
        forall|j: int|
            0 <= j < s.remove(i).len() ==> !spec_should_merge(s[i], #[trigger] s.remove(i)[j], d),
{
    let t = s.remove(i);
    assert forall|j: int| 0 <= j < t.len() implies !spec_should_merge(s[i], t[j], d) by {
        let j0 = if j < i {
            j
        } else {
            j + 1
        };
        assert(t[j] == s[j0]);
    }
}

/// The bounding box of the reported regions after clipping to the frame;
/// `None` when nothing of them lies inside it.
pub open spec fn spec_clipped_bbox(reported: Seq<DamageRegion>, w: u32, h: u32) -> Option<
    DamageRegion,
>
    decreases reported.len(),
{
    if reported.len() == 0 {
        None
    } else {
        let rest = spec_clipped_bbox(reported.drop_last(), w, h);
        match (rest, spec_clip(reported.last(), w, h)) {
            (None, None) => None,
            (None, Some(c)) => Some(c),
            (Some(b), None) => Some(b),
            (Some(b), Some(c)) => Some(spec_merge(b, c)),
        }
    }
}

/// The full-update decision over a damage set for a `w` by `h` frame: true
/// exactly when there is no damage information, the region cap is reached,
/// or the damaged share of the frame reaches the threshold.
pub open spec fn spec_full_update_decision(
    s: Seq<DamageRegion>,
    max_regions: int,
    threshold_permille: int,
    w: u32,
    h: u32,
) -> bool {
    s.len() == 0 || s.len() >= max_regions || spec_sum_area(s) * 1000 >= threshold_permille * w * h
}

/// Accumulated area of a sequence of regions, in pixels.
pub open spec fn spec_sum_area(s: Seq<DamageRegion>) -> int
    decreases s.len(),
{
    if s.len() == 0 {
        0
    } else {
        spec_sum_area(s.drop_last()) + spec_area(s.last())
    }
}

/// Bounding box of a non-empty sequence of regions.
pub open spec fn spec_bbox(s: Seq<DamageRegion>) -> DamageRegion
    recommends
        s.len() >= 1,
    decreases s.len(),
{
    if s.len() <= 1 {
        s[0]
    } else {
        spec_merge(spec_bbox(s.drop_last()), s.last())
    }
}

/// The bounding box of a non-empty sequence of bounded regions is bounded
/// and covers every region of the sequence.
pub proof fn lemma_bbox_covers_all(s: Seq<DamageRegion>)
    requires
        s.len() >= 1,
        forall|i: int| 0 <= i < s.len() ==> spec_region_bounded(#[trigger] s[i]),
    ensures
        spec_region_bounded(spec_bbox(s)),
        forall|i: int| 0 <= i < s.len() ==> spec_covers(spec_bbox(s), #[trigger] s[i]),
    decreases s.len(),
{
    if s.len() == 1 {
        assert(spec_bbox(s) == s[0]);
    } else {
        let head = s.drop_last();
        assert forall|i: int| 0 <= i < head.len() implies spec_region_bounded(
            #[trigger] head[i],
        ) by {
            assert(head[i] == s[i]);
        }
        lemma_bbox_covers_all(head);
        lemma_merge_bounded(spec_bbox(head), s.last());
        lemma_merge_covers_both(spec_bbox(head), s.last());
        assert forall|i: int| 0 <= i < s.len() implies spec_covers(
            spec_bbox(s),
            #[trigger] s[i],
        ) by {
            if i < s.len() - 1 {
                assert(head[i] == s[i]);
                lemma_covers_trans(spec_bbox(s), spec_bbox(head), s[i]);
            }
        }
    }
}

/// A region covering every region of a non-empty sequence covers its
/// bounding box.
pub proof fn lemma_bbox_covered_by(b: DamageRegion, s: Seq<DamageRegion>)
    requires
        s.len() >= 1,
        forall|i: int| 0 <= i < s.len() ==> spec_region_bounded(#[trigger] s[i]),
        forall|i: int| 0 <= i < s.len() ==> spec_covers(b, #[trigger] s[i]),
    ensures
        spec_covers(b, spec_bbox(s)),
    decreases s.len(),
{
    if s.len() > 1 {
        let head = s.drop_last();
        assert forall|i: int| 0 <= i < head.len() implies spec_region_bounded(#[trigger] head[i])
            && spec_covers(b, head[i]) by {
            assert(head[i] == s[i]);
        }
        lemma_bbox_covered_by(b, head);
        lemma_bbox_covers_all(head);
        lemma_cover_of_merge(b, spec_bbox(head), s.last());
    }
}

/// Damage statistics with all counters at zero.
pub open spec fn spec_zero_damage_stats() -> DamageStats {
    DamageStats {
        frames_processed: 0,
        full_damage_frames: 0,
        partial_damage_frames: 0,
        total_regions: 0,
    }
}

/// Damage tracking statistics.
#[derive(Debug, Clone, Copy, PartialEq, Eq, Structural)]
pub struct DamageStats {
    /// Frames processed (advanced by `clear`).
    pub frames_processed: u64,
    /// Frames marked as fully damaged.
    pub full_damage_frames: u64,
    /// Frames processed with partial damage.
    pub partial_damage_frames: u64,
    /// Regions handed to the tracker.
    pub total_regions: u64,
}

impl Default for DamageStats {
    /// All counters start at zero.
    fn default() -> (r: DamageStats)
        ensures
            r == (DamageStats {
                frames_processed: 0,
                full_damage_frames: 0,
                partial_damage_frames: 0,
                total_regions: 0,
            }),
    {
        DamageStats {
            frames_processed: 0,
            full_damage_frames: 0,
            partial_damage_frames: 0,
            total_regions: 0,
        }
    }
}

/// Tracks damaged regions between frames of a fixed size.
///
/// Every region is clipped to the frame before it is folded in, so the
/// accumulated set always lies within the frame, and with merging enabled
/// no two accumulated regions still satisfy the merging discipline.  The
/// exact layout of the set may depend on the order regions arrive in; the
/// discipline, the coverage of every added region, and the full-update
/// decision are what the contracts fix.  The full-update threshold is a
/// ratio in thousandths (per mille) of the frame area, so the decision
/// arithmetic is exact.
pub struct DamageTracker {
    frame_width: u32,
    frame_height: u32,
    regions: Vec<DamageRegion>,
    threshold_permille: u32,
    merge_distance: u32,
    enable_merging: bool,
    stats: DamageStats,
    max_regions: usize,
}

impl DamageTracker {
    /// The accumulated regions, in order.
    pub closed spec fn spec_regions(self) -> Seq<DamageRegion> {
        self.regions@
    }

    /// The width of the tracked frame.
    pub closed spec fn spec_frame_width(self) -> u32 {
        self.frame_width
    }

    /// The height of the tracked frame.
    pub closed spec fn spec_frame_height(self) -> u32 {
        self.frame_height
    }

    /// The full-update area threshold, in thousandths of the frame area.
    pub closed spec fn spec_threshold_permille(self) -> u32 {
        self.threshold_permille
    }

    /// The merge distance in pixels.
    pub closed spec fn spec_merge_distance(self) -> u32 {
        self.merge_distance
    }

    /// Whether region merging is enabled.
    pub closed spec fn spec_merging_enabled(self) -> bool {
        self.enable_merging
    }

    /// The region count that forces a full update.
    pub closed spec fn spec_max_regions(self) -> usize {
        self.max_regions
    }

    /// The statistics counters.
    pub closed spec fn spec_stats(self) -> DamageStats {
        self.stats
    }

    /// Well-formedness: the threshold is a valid per-mille ratio, every
    /// accumulated region lies within the frame with positive extent, and
    /// with merging enabled no two accumulated regions still satisfy the
    /// merging discipline.
    pub open spec fn wf(self) -> bool {
        &&& self.spec_threshold_permille() <= 1000
    &&& forall|i: int|
        0 <= i < self.spec_regions().len() ==> spec_region_bounded(
            #[trigger] self.spec_regions()[i],
        )
    &&& forall|i: int|
        0 <= i < self.spec_regions().len() ==> spec_within_frame(
            #[trigger] self.spec_regions()[i],
            self.spec_frame_width(),
            self.spec_frame_height(),
        )
    &&& self.spec_merging_enabled() ==> spec_pairwise_separated(
        self.spec_regions(),
        self.spec_merge_distance(),
    )
    }

    /// The tracker's configuration, other than the regions and statistics.
    pub open spec fn spec_same_config(self, other: DamageTracker) -> bool {
        &&& self.spec_frame_width() == other.spec_frame_width()
        &&& self.spec_frame_height() == other.spec_frame_height()
        &&& self.spec_threshold_permille() == other.spec_threshold_permille()
        &&& self.spec_merge_distance() == other.spec_merge_distance()
        &&& self.spec_merging_enabled() == other.spec_merging_enabled()
        &&& self.spec_max_regions() == other.spec_max_regions()
    }

    /// Create a tracker for a `frame_width` by `frame_height` frame with the
    /// default settings: a 500 per-mille (half the frame) threshold,
    /// 32-pixel merge distance, merging enabled, and a cap of 64 regions.
    pub fn new(frame_width: u32, frame_height: u32) -> (r: DamageTracker)
        ensures
            r.wf(),
            r.spec_regions().len() == 0,
            r.spec_frame_width() == frame_width,
            r.spec_frame_height() == frame_height,
            r.spec_threshold_permille() == 500,
            r.spec_merge_distance() == 32,
            r.spec_merging_enabled(),
            r.spec_max_regions() == 64,
            r.spec_stats() == spec_zero_damage_stats(),
    {
        DamageTracker {
            frame_width,
            frame_height,
            regions: Vec::new(),
            threshold_permille: 500,
            merge_distance: 32,
            enable_merging: true,
            stats: DamageStats::default(),
            max_regions: 64,
        }
    }

    /// Create a tracker with a custom full-update threshold, given in
    /// thousandths of the frame area and held to at most 1000.
    pub fn with_threshold(frame_width: u32, frame_height: u32, threshold_permille: u32) -> (r:
        DamageTracker)
        ensures
            r.wf(),
            r.spec_regions().len() == 0,
            r.spec_frame_width() == frame_width,
            r.spec_frame_height() == frame_height,
            r.spec_threshold_permille() == if threshold_permille <= 1000 {
                threshold_permille as int
            } else {
                1000int
            },
            r.spec_merge_distance() == 32,
            r.spec_merging_enabled(),
            r.spec_max_regions() == 64,
            r.spec_stats() == spec_zero_damage_stats(),
    {
        let mut r = Self::new(frame_width, frame_height);
        r.threshold_permille = if threshold_permille <= 1000 {
            threshold_permille
        } else {
            1000
        };
        r
    }

    /// Create a tracker with custom threshold, merge distance and region cap.
    pub fn with_settings(
        frame_width: u32,
        frame_height: u32,
        threshold_permille: u32,
        merge_distance: u32,
        max_regions: usize,
    ) -> (r: DamageTracker)
        ensures
            r.wf(),
            r.spec_regions().len() == 0,
            r.spec_frame_width() == frame_width,
            r.spec_frame_height() == frame_height,
            r.spec_threshold_permille() == if threshold_permille <= 1000 {
                threshold_permille as int
            } else {
                1000int
            },
            r.spec_merge_distance() == merge_distance,
            r.spec_merging_enabled(),
            r.spec_max_regions() == max_regions,
            r.spec_stats() == spec_zero_damage_stats(),
    {
        let mut r = Self::with_threshold(frame_width, frame_height, threshold_permille);
        r.merge_distance = merge_distance;
        r.max_regions = max_regions;
        r
    }

    /// Whether two regions satisfy the merging discipline at the tracker's
    /// configured merge distance.
    fn merge_candidates(&self, a: &DamageRegion, b: &DamageRegion) -> (r: bool)
        ensures
            r == spec_should_merge(*a, *b, self.spec_merge_distance()),
    {
        if a.overlaps(b) {
            return true;
        }
        let a_x2 = (a.x as u64) + (a.width as u64);
        let b_x2 = (b.x as u64) + (b.width as u64);
        let dist_x: u64 = if a_x2 < b.x as u64 {
            (b.x as u64) - a_x2
        } else if b_x2 < a.x as u64 {
            (a.x as u64) - b_x2
        } else {
            0
        };
        let a_y2 = (a.y as u64) + (a.height as u64);
        let b_y2 = (b.y as u64) + (b.height as u64);
        let dist_y: u64 = if a_y2 < b.y as u64 {
            (b.y as u64) - a_y2
        } else if b_y2 < a.y as u64 {
            (a.y as u64) - b_y2
        } else {
            0
        };
        dist_x <= self.merge_distance as u64 && dist_y <= self.merge_distance as u64
    }

    /// Fold a new region into the accumulated set, merging repeatedly until
    /// no region satisfies the merging discipline with the folded result.
    #[verifier::rlimit(100)]
    fn add_with_merge(&mut self, region: DamageRegion)
        requires
            old(self).wf(),
            old(self).spec_merging_enabled(),
            spec_within_frame(region, old(self).spec_frame_width(), old(self).spec_frame_height()),
        ensures
            final(self).wf(),
            final(self).spec_same_config(*old(self)),
            final(self).spec_stats() == old(self).spec_stats(),
            exists|i: int|
                0 <= i < final(self).spec_regions().len() && spec_covers(
                    #[trigger] final(self).spec_regions()[i],
                    region,
                ),
            1 <= final(self).spec_regions().len() <= old(self).spec_regions().len() + 1,
            (exists|i: int|
                0 <= i < old(self).spec_regions().len() && spec_covers(
                    #[trigger] old(self).spec_regions()[i],
                    region,
                )) ==> final(self).spec_regions().to_multiset() == old(
                self,
            ).spec_regions().to_multiset(),
            forall|b: DamageRegion|
                (#[trigger] spec_covers(b, region) && (forall|i: int|
                    0 <= i < old(self).spec_regions().len() ==> spec_covers(
                        b,
                        #[trigger] old(self).spec_regions()[i],
                    ))) ==> forall|j: int|
                    0 <= j < final(self).spec_regions().len() ==> spec_covers(
                        b,
                        #[trigger] final(self).spec_regions()[j],
                    ),
    {
        broadcast use group_to_multiset_ensures;

        let ghost orig = self.regions@;
        let ghost d = self.merge_distance;
        let ghost fw = self.frame_width;
        let ghost fh = self.frame_height;
        let ghost covered = exists|i: int|
            0 <= i < orig.len() && spec_covers(#[trigger] orig[i], region);
        let ghost mut ci: int = 0;
        proof {
            if covered {
                ci = choose|i: int| 0 <= i < orig.len() && spec_covers(#[trigger] orig[i], region);
            }
        }
        let mut merged = region;
        let mut merged_any = true;
        let ghost mut removed: Seq<DamageRegion> = Seq::empty();
        proof {
            assert(removed.to_multiset() =~= Multiset::<DamageRegion>::empty());
            assert(self.regions@.to_multiset().add(removed.to_multiset()) =~= orig.to_multiset());
            assert(seq![region] + removed =~= seq![region]);
            assert(spec_bbox(seq![region]) == region);
        }
        while merged_any
            invariant
                self.wf(),
                spec_pairwise_separated(orig, d),
                self.spec_same_config(*old(self)),
                self.spec_stats() == old(self).spec_stats(),
                self.spec_merge_distance() == d,
                self.spec_merging_enabled(),
                self.regions@.len() <= orig.len(),
                self.spec_frame_width() == fw,
                self.spec_frame_height() == fh,
                spec_region_bounded(merged),
                spec_within_frame(merged, fw, fh),
                spec_covers(merged, region),
                covered ==> 0 <= ci < orig.len() && spec_covers(orig[ci], region),
                covered ==> (merged == region && self.regions@ == orig) || (merged == orig[ci]
                    && self.regions@ == orig.remove(ci)),
                self.regions@.to_multiset().add(removed.to_multiset()) =~= orig.to_multiset(),
                merged == spec_bbox(seq![region] + removed),
                forall|k: int|
                    0 <= k < removed.len() ==> spec_region_bounded(#[trigger] removed[k]),
                !merged_any ==> forall|j: int|
                    0 <= j < self.regions@.len() ==> !spec_should_merge(
                        merged,
                        #[trigger] self.regions@[j],
                        d,
                    ),
            decreases 2 * self.regions.len() + if merged_any {
                1int
            } else {
                0int
            },
        {
            merged_any = false;
            let ghost pass_start = self.regions@.len();
            let mut i: usize = 0;
            while i < self.regions.len()
                invariant
                    self.wf(),
                    spec_pairwise_separated(orig, d),
                    self.spec_same_config(*old(self)),
                    self.spec_stats() == old(self).spec_stats(),
                    self.spec_merge_distance() == d,
                    self.spec_merging_enabled(),
                    0 <= i <= self.regions@.len(),
                    self.regions@.len() <= pass_start <= orig.len(),
                    merged_any ==> self.regions@.len() < pass_start,
                    self.spec_frame_width() == fw,
                    self.spec_frame_height() == fh,
                    spec_region_bounded(merged),
                    spec_within_frame(merged, fw, fh),
                    spec_covers(merged, region),
                    covered ==> 0 <= ci < orig.len() && spec_covers(orig[ci], region),
                    covered ==> (merged == region && self.regions@ == orig) || (merged == orig[ci]
                        && self.regions@ == orig.remove(ci)),
                    self.regions@.to_multiset().add(removed.to_multiset()) =~= orig.to_multiset(),
                    merged == spec_bbox(seq![region] + removed),
                    forall|k: int|
                        0 <= k < removed.len() ==> spec_region_bounded(#[trigger] removed[k]),
                    !merged_any ==> forall|j: int|
                        0 <= j < i ==> !spec_should_merge(merged, #[trigger] self.regions@[j], d),
                decreases self.regions.len() - i,
            {
                let candidate = self.regions[i];
                if self.merge_candidates(&merged, &candidate) {
                    proof {
                        if covered {
                            if merged == region && self.regions@ == orig {
                                // First merge in the covered case: the partner
                                // must be the covering region itself, since a
                                // partner of the covered region would also be
                                // a partner of its cover, and the accumulated
                                // set is pairwise separated.
                                lemma_should_merge_monotone(region, orig[ci], candidate, d);
                                if i as int != ci {
                                    assert(!spec_should_merge(orig[ci], orig[i as int], d));
                                    lemma_should_merge_symmetric(orig[ci], candidate, d);
                                    assert(false);
                                }
                                lemma_merge_into_cover(merged, candidate);
                            } else {
                                // Covered case after the first merge: the
                                // folded region is an original region, still
                                // separated from everything that remains.
                                lemma_removed_separated_from_rest(orig, ci, d);
                                assert(false);
                            }
                        }
                    }
                    let new_merged = merged.merge(&candidate);
                    proof {
                        lemma_merge_bounded(merged, candidate);
                        lemma_merge_covers_both(merged, candidate);
                        lemma_covers_trans(spec_merge(merged, candidate), merged, region);
                        lemma_merge_within_frame(merged, candidate, fw, fh);
                        lemma_separated_remove(self.regions@, i as int, d);
                        assert forall|k: int|
                            0 <= k < self.regions@.remove(i as int).len() implies spec_region_bounded(
                            #[trigger] self.regions@.remove(i as int)[k],
                        ) && spec_within_frame(
                            #[trigger] self.regions@.remove(i as int)[k],
                            fw,
                            fh,
                        ) by {
                            let k0 = if k < i as int {
                                k
                            } else {
                                k + 1
                            };
                            assert(self.regions@.remove(i as int)[k] == self.regions@[k0]);
                        }
                    }
                    proof {
                        // The removed candidate moves from the live set into
                        // the ghost record, and the fold stays the bounding
                        // box of the input and everything absorbed so far.
                        broadcast use group_to_multiset_ensures;

                        let pre = self.regions@;
                        assert(pre.contains(pre[i as int]));
                        assert(pre.to_multiset().count(pre[i as int]) > 0);
                        assert(pre.remove(i as int).to_multiset() =~= pre.to_multiset().remove(
                            pre[i as int],
                        ));
                        assert(removed.push(candidate).to_multiset() =~= removed.to_multiset(
                        ).insert(candidate));
                        assert(pre.remove(i as int).to_multiset().add(
                            removed.push(candidate).to_multiset(),
                        ) =~= orig.to_multiset());
                        assert((seq![region] + removed.push(candidate)).drop_last() =~= seq![
                            region,
                        ] + removed);
                        assert((seq![region] + removed.push(candidate)).last() == candidate);
                        removed = removed.push(candidate);
                    }
                    merged = new_merged;
                    self.regions.remove(i);
                    merged_any = true;
                } else {
                    i = i + 1;
                }
            }
        }
        proof {
            if covered {
                if merged == region && self.regions@ == orig {
                    // A clean final pass is impossible while the covering
                    // region is still present: it always merges.
                    lemma_covered_should_merge(region, orig[ci], d);
                    assert(spec_should_merge(merged, self.regions@[ci], d));
                    assert(false);
                }
            }
        }
        let ghost before_push = self.regions@;
        self.regions.push(merged);
        proof {
            assert forall|p: int, q: int|
                0 <= p < self.regions@.len() && 0 <= q < self.regions@.len() && p
                    != q implies !spec_should_merge(self.regions@[p], self.regions@[q], d) by {
                if p < before_push.len() && q < before_push.len() {
                    assert(self.regions@[p] == before_push[p] && self.regions@[q]
                        == before_push[q]);
                } else if p == before_push.len() {
                    assert(self.regions@[q] == before_push[q]);
                    assert(!spec_should_merge(merged, before_push[q], d));
                    lemma_should_merge_symmetric(merged, before_push[q], d);
                } else {
                    assert(self.regions@[p] == before_push[p]);
                    assert(!spec_should_merge(merged, before_push[p], d));
                    lemma_should_merge_symmetric(merged, before_push[p], d);
                }
            }
            assert(spec_covers(self.regions@[self.regions@.len() - 1], region));
            let ghost absorbed = seq![region] + removed;
            assert forall|k: int|
                0 <= k < absorbed.len() implies spec_region_bounded(#[trigger] absorbed[k]) by {
                if k >= 1 {
                    assert(absorbed[k] == removed[k - 1]);
                }
            }
            lemma_bbox_covers_all(absorbed);
            let ghost absorbed = seq![region] + removed;
            assert forall|k: int|
                0 <= k < absorbed.len() implies spec_region_bounded(#[trigger] absorbed[k]) by {
                if k >= 1 {
                    assert(absorbed[k] == removed[k - 1]);
                }
            }
            assert forall|b: DamageRegion|
                (#[trigger] spec_covers(b, region) && (forall|i: int|
                    0 <= i < orig.len() ==> spec_covers(b, #[trigger] orig[i]))) implies (
            forall|j: int|
                0 <= j < self.regions@.len() ==> spec_covers(
                    b,
                    #[trigger] self.regions@[j],
                )) by {
                if spec_covers(b, region) && (forall|i: int|
                    0 <= i < orig.len() ==> spec_covers(b, #[trigger] orig[i])) {
                    assert forall|k: int|
                        0 <= k < absorbed.len() implies spec_covers(b, #[trigger] absorbed[k]) by {
                        if k >= 1 {
                            let x = absorbed[k];
                            assert(removed[k - 1] == x);
                            assert(removed.contains(x));
                            assert(removed.to_multiset().count(x) > 0);
                            assert(orig.to_multiset().count(x) > 0);
                            assert(orig.contains(x));
                            let i = choose|i: int| 0 <= i < orig.len() && orig[i] == x;
                            assert(spec_covers(b, orig[i]));
                        }
                    }
                    lemma_bbox_covered_by(b, absorbed);
                    assert forall|j: int|
                        0 <= j < self.regions@.len() implies spec_covers(
                        b,
                        #[trigger] self.regions@[j],
                    ) by {
                        if j < before_push.len() {
                            let x = before_push[j];
                            assert(self.regions@[j] == x);
                            assert(before_push.contains(x));
                            assert(before_push.to_multiset().count(x) > 0);
                            assert(orig.to_multiset().count(x) > 0);
                            assert(orig.contains(x));
                            let i = choose|i: int| 0 <= i < orig.len() && orig[i] == x;
                            assert(spec_covers(b, orig[i]));
                        } else {
                            assert(self.regions@[j] == merged);
                        }
                    }
                }
            }
            if covered {
                assert(before_push == orig.remove(ci));
                assert(before_push.to_multiset() == orig.to_multiset().remove(orig[ci]));
                assert(self.regions@.to_multiset() == before_push.to_multiset().insert(merged));
                assert(orig.to_multiset().contains(orig[ci]));
                assert(self.regions@.to_multiset() =~= orig.to_multiset());
            }
        }
    }

    /// Add a damaged region: it is clipped to the frame, then folded into
    /// the accumulated set.
    ///
    /// When the region cap has been reached, or nothing of the region lies
    /// inside the frame, the tracker is left unchanged (the cap itself
    /// forces a full update).  Otherwise, with merging disabled the clipped
    /// region is appended; with merging enabled it is folded in under the
    /// merging discipline, and some accumulated region covers it
    /// afterwards.  Folding in a region whose clipped form an accumulated
    /// region already covers leaves the accumulated multiset of regions
    /// unchanged, so the full-update decision is idempotent in the added
    /// region.
    pub fn add_region(&mut self, region: DamageRegion)
        requires
            old(self).wf(),
        ensures
            final(self).wf(),
            final(self).spec_same_config(*old(self)),
            old(self).spec_regions().len() >= old(self).spec_max_regions() ==> *final(self) == *old(
                self,
            ),
            (old(self).spec_regions().len() < old(self).spec_max_regions() && spec_clip(
                region,
                old(self).spec_frame_width(),
                old(self).spec_frame_height(),
            ) is None) ==> *final(self) == *old(self),
            (old(self).spec_regions().len() < old(self).spec_max_regions() && spec_clip(
                region,
                old(self).spec_frame_width(),
                old(self).spec_frame_height(),
            ) is Some) ==> {
                let c = spec_clip(
                    region,
                    old(self).spec_frame_width(),
                    old(self).spec_frame_height(),
                )->Some_0;
                &&& final(self).spec_stats() == (DamageStats {
                    total_regions: crate::util::sat_inc(old(self).spec_stats().total_regions),
                    ..old(self).spec_stats()
                })
                &&& !old(self).spec_merging_enabled() ==> final(self).spec_regions() == old(
                    self,
                ).spec_regions().push(c)
                &&& old(self).spec_merging_enabled() ==> {
                    &&& exists|i: int|
                        0 <= i < final(self).spec_regions().len() && spec_covers(
                            #[trigger] final(self).spec_regions()[i],
                            c,
                        )
                    &&& 1 <= final(self).spec_regions().len() <= old(self).spec_regions().len() + 1
                    &&& (exists|i: int|
                        0 <= i < old(self).spec_regions().len() && spec_covers(
                            #[trigger] old(self).spec_regions()[i],
                            c,
                        )) ==> final(self).spec_regions().to_multiset() == old(
                        self,
                    ).spec_regions().to_multiset()
                }
            },
            (old(self).spec_regions().len() < old(self).spec_max_regions() && spec_clip(
                region,
                old(self).spec_frame_width(),
                old(self).spec_frame_height(),
            ) is Some) ==> forall|b: DamageRegion|
                (#[trigger] spec_covers(
                    b,
                    spec_clip(
                        region,
                        old(self).spec_frame_width(),
                        old(self).spec_frame_height(),
                    )->Some_0,
                ) && (forall|i: int|
                    0 <= i < old(self).spec_regions().len() ==> spec_covers(
                        b,
                        #[trigger] old(self).spec_regions()[i],
                    ))) ==> forall|j: int|
                    0 <= j < final(self).spec_regions().len() ==> spec_covers(
                        b,
                        #[trigger] final(self).spec_regions()[j],
                    ),
    {
        if self.regions.len() >= self.max_regions {
            return ;
        }
        let clipped = region.clip(self.frame_width, self.frame_height);
        let c = match clipped {
            None => {
                return ;
            }
            Some(c) => c,
        };
        if self.enable_merging {
            self.add_with_merge(c);
        } else {
            let ghost before = self.regions@;
            self.regions.push(c);
            proof {
                assert forall|i: int|
                    0 <= i < self.regions@.len() implies spec_region_bounded(
                    #[trigger] self.regions@[i],
                ) && spec_within_frame(
                    #[trigger] self.regions@[i],
                    self.spec_frame_width(),
                    self.spec_frame_height(),
                ) by {
                    if i < before.len() {
                        assert(self.regions@[i] == before[i]);
                    } else {
                        assert(self.regions@[i] == c);
                    }
                }
            }
        }
        self.stats.total_regions = crate::util::counter_inc(self.stats.total_regions);
    }

    /// Add several damaged regions in order; each is clipped to the frame.
    pub fn add_regions(&mut self, regions: &Vec<DamageRegion>)
        requires
            old(self).wf(),
        ensures
            final(self).wf(),
            final(self).spec_same_config(*old(self)),
            final(self).spec_stats().frames_processed == old(self).spec_stats().frames_processed,
            final(self).spec_stats().full_damage_frames == old(
                self,
            ).spec_stats().full_damage_frames,
            final(self).spec_regions().len() <= old(self).spec_regions().len() + regions@.len(),
    {
        let mut i: usize = 0;
        while i < regions.len()
            invariant
                self.wf(),
                self.spec_same_config(*old(self)),
                0 <= i <= regions@.len(),
                self.spec_stats().frames_processed == old(self).spec_stats().frames_processed,
                self.spec_stats().full_damage_frames == old(self).spec_stats().full_damage_frames,
                self.spec_regions().len() <= old(self).spec_regions().len() + i,
            decreases regions.len() - i,
        {
            self.add_region(regions[i]);
            i = i + 1;
        }
    }

    /// Replace the accumulated damage with the whole `width` by `height`
    /// area, clipped to the frame; a degenerate area leaves the set empty.
    pub fn mark_full_damage(&mut self, width: u32, height: u32)
        requires
            old(self).wf(),
        ensures
            final(self).wf(),
            final(self).spec_same_config(*old(self)),
            final(self).spec_regions() =~= match spec_clip(
                DamageRegion { x: 0, y: 0, width, height },
                old(self).spec_frame_width(),
                old(self).spec_frame_height(),
            ) {
                Some(c) => seq![c],
                None => Seq::<DamageRegion>::empty(),
            },
            final(self).spec_stats() == (DamageStats {
                full_damage_frames: crate::util::sat_inc(old(self).spec_stats().full_damage_frames),
                ..old(self).spec_stats()
            }),
    {
        self.regions.clear();
        let clipped = DamageRegion { x: 0, y: 0, width, height }.clip(
            self.frame_width,
            self.frame_height,
        );
        if let Some(c) = clipped {
            self.regions.push(c);
        }
        self.stats.full_damage_frames = crate::util::counter_inc(self.stats.full_damage_frames);
    }

    /// The accumulated damaged regions, in order.
    pub fn damaged_regions(&self) -> (r: &Vec<DamageRegion>)
        ensures
            r@ == self.spec_regions(),
    {
        &self.regions
    }

    /// Number of accumulated regions.
    pub fn region_count(&self) -> (r: usize)
        ensures
            r == self.spec_regions().len(),
    {
        self.regions.len()
    }

    /// Whether any damage has been recorded.
    pub fn has_damage(&self) -> (r: bool)
        ensures
            r == (self.spec_regions().len() > 0),
    {
        self.regions.len() > 0
    }

    /// Total damaged area in pixels, saturating at `u64::MAX`.
    pub fn total_damaged_area(&self) -> (r: u64)
        requires
            self.wf(),
        ensures
            r == if spec_sum_area(self.spec_regions()) <= u64::MAX {
                spec_sum_area(self.spec_regions())
            } else {
                u64::MAX as int
            },
    {
        let mut sum: u64 = 0;
        let mut i: usize = 0;
        while i < self.regions.len()
            invariant
                0 <= i <= self.regions@.len(),
                self.wf(),
                sum == if spec_sum_area(self.spec_regions().take(i as int)) <= u64::MAX {
                    spec_sum_area(self.spec_regions().take(i as int))
                } else {
                    u64::MAX as int
                },
            decreases self.regions.len() - i,
        {
            let area = self.regions[i].area();
            proof {
                assert(self.spec_regions().take(i as int + 1).drop_last() =~= self.spec_regions(
                ).take(i as int));
                assert(self.spec_regions().take(i as int + 1).last() == self.spec_regions()[i as int]);
            }
            if sum > u64::MAX - area {
                sum = u64::MAX;
            } else {
                sum = sum + area;
            }
            i = i + 1;
        }
        proof {
            assert(self.spec_regions().take(self.regions@.len() as int) =~= self.spec_regions());
        }
        sum
    }

    /// Decide whether encoding the whole frame beats per-region updates:
    /// true exactly when there is no damage information, the region cap has
    /// been reached, or the damaged share of the frame reaches the
    /// threshold.
    pub fn should_full_update(&self, frame_size: (u32, u32)) -> (r: bool)
        requires
            self.wf(),
        ensures
            r == spec_full_update_decision(
                self.spec_regions(),
                self.spec_max_regions() as int,
                self.spec_threshold_permille() as int,
                frame_size.0,
                frame_size.1,
            ),
    {
        if self.regions.len() == 0 {
            return true;
        }
        if self.regions.len() >= self.max_regions {
            return true;
        }
        let mut sum: u128 = 0;
        let mut i: usize = 0;
        proof {
            assert forall|s: Seq<DamageRegion>|
                (forall|k: int| 0 <= k < s.len() ==> spec_region_bounded(#[trigger] s[k]))
                    implies spec_sum_area(s) >= 0 by {
                Self::lemma_sum_area_nonneg(s);
            }
        }
        while i < self.regions.len()
            invariant
                0 <= i <= self.regions@.len(),
                self.wf(),
                sum == spec_sum_area(self.spec_regions().take(i as int)),
                sum <= i * 0xffff_fffe_0000_0001u128,
            decreases self.regions.len() - i,
        {
            let area = self.regions[i].area();
            proof {
                assert(self.spec_regions().take(i as int + 1).drop_last() =~= self.spec_regions(
                ).take(i as int));
                assert(self.spec_regions().take(i as int + 1).last() == self.spec_regions()[i as int]);
                assert(spec_area(self.spec_regions()[i as int]) <= 0xffff_fffe_0000_0001u128)
                    by (nonlinear_arith)
                    requires
                        spec_region_bounded(self.spec_regions()[i as int]),
                        self.spec_regions()[i as int].width <= u32::MAX,
                        self.spec_regions()[i as int].height <= u32::MAX,
                ;
                assert((i + 1) * 0xffff_fffe_0000_0001u128 == i * 0xffff_fffe_0000_0001u128
                    + 0xffff_fffe_0000_0001u128) by (nonlinear_arith);
                assert(self.regions@.len() * 0xffff_fffe_0000_0001u128
                    <= 0xffff_ffff_ffff_ffffu128 * 0xffff_fffe_0000_0001u128) by (nonlinear_arith)
                    requires
                        self.regions@.len() <= 0xffff_ffff_ffff_ffffu128,
                ;
            }
            sum = sum + area as u128;
            i = i + 1;
        }
        proof {
            assert(self.spec_regions().take(self.regions@.len() as int) =~= self.spec_regions());
            assert((frame_size.0 as int) * (frame_size.1 as int) < 0x1_0000_0000_0000_0000)
                by (nonlinear_arith)
                requires
                    frame_size.0 <= u32::MAX,
                    frame_size.1 <= u32::MAX,
            ;
            assert((self.threshold_permille as int) * ((frame_size.0 as int) * (frame_size.1
                as int)) <= 1000 * ((frame_size.0 as int) * (frame_size.1 as int)))
                by (nonlinear_arith)
                requires
                    self.threshold_permille <= 1000,
                    (frame_size.0 as int) * (frame_size.1 as int) >= 0,
            ;
            assert((self.spec_threshold_permille() * frame_size.0 * frame_size.1) as int == (
            self.threshold_permille as int) * ((frame_size.0 as int) * (frame_size.1 as int)))
                by (nonlinear_arith);
        }
        let frame_area: u128 = (frame_size.0 as u128) * (frame_size.1 as u128);
        let threshold_scaled: u128 = (self.threshold_permille as u128) * frame_area;
        if sum >= 0x1_0000_0000_0000_0000u128 {
            // The damaged area alone exceeds any possible scaled threshold.
            proof {
                assert(sum * 1000 >= 0x1_0000_0000_0000_0000u128 * 1000) by (nonlinear_arith)
                    requires
                        sum >= 0x1_0000_0000_0000_0000u128,
                ;
            }
            return true;
        }
        let damage_scaled: u128 = sum * 1000;
        damage_scaled >= threshold_scaled
    }

    /// The accumulated area of any sequence of bounded regions is
    /// non-negative.
    proof fn lemma_sum_area_nonneg(s: Seq<DamageRegion>)
        ensures
            spec_sum_area(s) >= 0,
        decreases s.len(),
    {
        if s.len() > 0 {
            Self::lemma_sum_area_nonneg(s.drop_last());
            assert(spec_area(s.last()) >= 0) by (nonlinear_arith)
                requires
                    s.last().width >= 0,
                    s.last().height >= 0,
            ;
        }
    }

    /// Bounding box of all accumulated regions; `None` when there are none.
    pub fn bounding_box(&self) -> (r: Option<DamageRegion>)
        requires
            self.wf(),
        ensures
            r == if self.spec_regions().len() == 0 {
                Option::<DamageRegion>::None
            } else {
                Option::Some(spec_bbox(self.spec_regions()))
            },
    {
        if self.regions.len() == 0 {
            return None;
        }
        proof {
            assert(spec_region_bounded(self.spec_regions()[0]));
        }
        let mut result = self.regions[0];
        let mut i: usize = 1;
        while i < self.regions.len()
            invariant
                1 <= i <= self.regions@.len(),
                self.wf(),
                spec_region_bounded(result),
                result == spec_bbox(self.spec_regions().take(i as int)),
            decreases self.regions.len() - i,
        {
            proof {
                assert(self.spec_regions().take(i as int + 1).drop_last() =~= self.spec_regions(
                ).take(i as int));
                assert(self.spec_regions().take(i as int + 1).last() == self.spec_regions()[i as int]);
                lemma_merge_bounded(result, self.spec_regions()[i as int]);
            }
            result = result.merge(&self.regions[i]);
            i = i + 1;
        }
        proof {
            assert(self.spec_regions().take(self.regions@.len() as int) =~= self.spec_regions());
        }
        Some(result)
    }

    /// Clear the damage for the next frame and advance the frame counter.
    pub fn clear(&mut self)
        requires
            old(self).wf(),
        ensures
            final(self).wf(),
            final(self).spec_same_config(*old(self)),
            final(self).spec_regions().len() == 0,
            final(self).spec_stats() == (DamageStats {
                frames_processed: crate::util::sat_inc(old(self).spec_stats().frames_processed),
                ..old(self).spec_stats()
            }),
    {
        self.regions.clear();
        self.stats.frames_processed = crate::util::counter_inc(self.stats.frames_processed);
    }

    /// The statistics counters.
    pub fn stats(&self) -> (r: &DamageStats)
        ensures
            *r == self.spec_stats(),
    {
        &self.stats
    }

    /// Set the full-update threshold, in thousandths of the frame area, held
    /// to at most 1000.
    pub fn set_threshold(&mut self, threshold_permille: u32)
        requires
            old(self).wf(),
        ensures
            final(self).wf(),
            final(self).spec_threshold_permille() == if threshold_permille <= 1000 {
                threshold_permille as int
            } else {
                1000int
            },
            final(self).spec_regions() == old(self).spec_regions(),
            final(self).spec_stats() == old(self).spec_stats(),
            final(self).spec_merge_distance() == old(self).spec_merge_distance(),
            final(self).spec_merging_enabled() == old(self).spec_merging_enabled(),
            final(self).spec_max_regions() == old(self).spec_max_regions(),
            final(self).spec_frame_width() == old(self).spec_frame_width(),
            final(self).spec_frame_height() == old(self).spec_frame_height(),
    {
        self.threshold_permille = if threshold_permille <= 1000 {
            threshold_permille
        } else {
            1000
        };
        proof {
            assert forall|i: int|
                0 <= i < self.spec_regions().len() implies spec_region_bounded(
                #[trigger] self.spec_regions()[i],
            ) && spec_within_frame(
                #[trigger] self.spec_regions()[i],
                self.spec_frame_width(),
                self.spec_frame_height(),
            ) by {
                assert(self.spec_regions()[i] == old(self).spec_regions()[i]);
            }
        }
    }

    /// Enable or disable region merging.  Enabling merging is only allowed
    /// while no damage is accumulated, so the merging discipline keeps
    /// holding of the accumulated set.
    pub fn set_merging(&mut self, enable: bool)
        requires
            old(self).wf(),
            enable ==> old(self).spec_regions().len() == 0,
        ensures
            final(self).wf(),
            final(self).spec_merging_enabled() == enable,
            final(self).spec_regions() == old(self).spec_regions(),
            final(self).spec_stats() == old(self).spec_stats(),
            final(self).spec_merge_distance() == old(self).spec_merge_distance(),
            final(self).spec_threshold_permille() == old(self).spec_threshold_permille(),
            final(self).spec_max_regions() == old(self).spec_max_regions(),
            final(self).spec_frame_width() == old(self).spec_frame_width(),
            final(self).spec_frame_height() == old(self).spec_frame_height(),
    {
        self.enable_merging = enable;
    }
}

} // verus!
