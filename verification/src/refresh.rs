//! Refresh controller: turns a dirty rectangle plus display parameters into a
//! hardware refresh command, tracks outstanding markers, and optionally blocks
//! for completion.
//!
//! Every submission is issued under a fresh, monotonically increasing marker.
//! A submission in `Async` mode stays pending until it is waited on; a `Wait`
//! submission returns only once its own marker has retired, so the marker it
//! hands back is never pending; a `DryRun` performs the collision probe only
//! and changes nothing. Waiting on a retired or unknown marker returns the
//! `MARKER_RETIRED` sentinel immediately.
//!
//! The refresh engine processes 8x8 pixel blocks and 32-bit-aligned addresses,
//! so the controller expands every requested rectangle outward to block
//! alignment (clipped to the panel) before issuing it: the physically
//! refreshed area can exceed the requested one, but always covers it.

use vstd::prelude::*;

use crate::framebuffer::Framebuffer;
use crate::geom::Rect;

verus! {

/// Waveform mode: the electrical driving sequence used to flip pixel states;
/// trades refresh speed against quality and ghosting.
#[derive(Clone, Copy, Debug, PartialEq, Eq, Structural)]
pub enum WaveformMode {
    Init,
    Du,
    Gc16,
    Gc16Fast,
    A2,
    Reagl,
    Reagld,
    Auto,
}

/// Temperature compensation selector for a refresh.
#[derive(Clone, Copy, Debug, PartialEq, Eq, Structural)]
pub enum DisplayTemp {
    Ambient,
    Papyrus,
    RemarkableDraw,
    Max,
}

/// Dither mode applied while quantizing pixels for a refresh.
#[derive(Clone, Copy, Debug, PartialEq, Eq, Structural)]
pub enum DitherMode {
    Passthrough,
    FloydSteinberg,
    Atkinson,
    Ordered,
    QuantOnly,
}

/// How a partial refresh call behaves: probe only, fire-and-forget, or block
/// until the refresh completes.
#[derive(Clone, Copy, Debug, PartialEq, Eq, Structural)]
pub enum PartialRefreshMode {
    DryRun,
    Async,
    Wait,
}

/// Result of waiting on a marker that is not pending (already retired, waited
/// on before, or never issued).
pub const MARKER_RETIRED: u32 = u32::MAX;

/// One outstanding refresh: its marker, the aligned region it covers, and the
/// collision-test value recorded at submission.
#[derive(Clone, Copy, Debug, PartialEq, Eq, Structural)]
pub struct PendingRefresh {
    pub marker: u32,
    pub region: Rect,
    pub collision: u32,
}

/// Pending entries carry distinct markers, all issued before `next`.
pub open spec fn pending_wf(pending: Seq<PendingRefresh>, next: u32) -> bool {
    &&& forall|i: int| 0 <= i < pending.len() ==> (#[trigger] pending[i]).marker < next
    &&& forall|i: int, j: int|
        0 <= i < pending.len() && 0 <= j < pending.len() && i != j ==> (#[trigger] pending[i]).marker
            != (#[trigger] pending[j]).marker
}

/// Index of the entry holding `marker`, or -1 when none does.
pub open spec fn marker_index(pending: Seq<PendingRefresh>, marker: u32) -> int
    decreases pending.len(),
{
    if pending.len() == 0 {
        -1
    } else if pending[0].marker == marker {
        0
    } else {
        let r = marker_index(pending.skip(1), marker);
        if r < 0 {
            -1
        } else {
            r + 1
        }
    }
}

/// `marker_index` finds exactly the entries that are present.
pub proof fn lemma_marker_index(pending: Seq<PendingRefresh>, marker: u32)
    ensures
        marker_index(pending, marker) >= 0 ==> marker_index(pending, marker) < pending.len()
            && pending[marker_index(pending, marker)].marker == marker,
        marker_index(pending, marker) < 0 ==> forall|i: int|
            0 <= i < pending.len() ==> (#[trigger] pending[i]).marker != marker,
    decreases pending.len(),
{
    if pending.len() > 0 && pending[0].marker != marker {
        lemma_marker_index(pending.skip(1), marker);
        let r = marker_index(pending.skip(1), marker);
        if r >= 0 {
            assert(pending.skip(1)[r] == pending[r + 1]);
        } else {
            assert forall|i: int| 0 <= i < pending.len() implies (#[trigger] pending[i]).marker
                != marker by {
                if i >= 1 {
                    assert(pending.skip(1)[i - 1] == pending[i]);
                }
            }
        }
    }
}

/// A marker not yet issued is never found pending. In particular the marker a
/// `Wait`-mode submission returns has already retired by the time the call
/// returns, so a wait on it comes back at once.
pub proof fn lemma_fresh_marker_not_pending(pending: Seq<PendingRefresh>, next: u32)
    requires
        pending_wf(pending, next),
    ensures
        marker_index(pending, next) < 0,
{
    lemma_marker_index(pending, next);
    if marker_index(pending, next) >= 0 {
        assert(pending[marker_index(pending, next)].marker < next);
    }
}

/// The region of some in-flight entry overlaps `r`.
pub open spec fn spec_collides(pending: Seq<PendingRefresh>, r: Rect) -> bool {
    exists|i: int| 0 <= i < pending.len() && (#[trigger] pending[i]).region.spec_overlaps(r)
}

/// Collision-test value recorded for a submission against the in-flight set.
pub open spec fn spec_collision_of(pending: Seq<PendingRefresh>, r: Rect) -> u32 {
    if spec_collides(pending, r) {
        1
    } else {
        0
    }
}

/// What a wait on `marker` returns: the collision value recorded at
/// submission, or the sentinel once the marker is no longer pending.
pub open spec fn spec_wait_result(pending: Seq<PendingRefresh>, marker: u32) -> u32 {
    if marker_index(pending, marker) >= 0 {
        pending[marker_index(pending, marker)].collision
    } else {
        MARKER_RETIRED
    }
}

/// The in-flight set after a wait on `marker` retires it.
pub open spec fn spec_wait_pending(pending: Seq<PendingRefresh>, marker: u32) -> Seq<
    PendingRefresh,
> {
    if marker_index(pending, marker) >= 0 {
        pending.remove(marker_index(pending, marker))
    } else {
        pending
    }
}

/// Waiting on a marker that has already retired returns the sentinel
/// immediately, changes nothing, and a second wait on the same marker returns
/// the same result again.
pub proof fn lemma_wait_retired_twice(pending: Seq<PendingRefresh>, marker: u32)
    requires
        marker_index(pending, marker) < 0,
    ensures
        spec_wait_result(pending, marker) == MARKER_RETIRED,
        spec_wait_pending(pending, marker) == pending,
        spec_wait_result(spec_wait_pending(pending, marker), marker) == spec_wait_result(
            pending,
            marker,
        ),
{
}

/// A `Wait`-mode submission never returns before a wait on its own marker
/// would: by the time the call returns, the marker it hands back has retired,
/// so `wait_refresh_complete` on it returns the sentinel immediately and
/// leaves the controller unchanged — and does so again when repeated.
pub proof fn lemma_wait_mode_synchronous(pending: Seq<PendingRefresh>, next: u32)
    requires
        pending_wf(pending, next),
    ensures
        spec_wait_result(pending, next) == MARKER_RETIRED,
        spec_wait_pending(pending, next) == pending,
{
    lemma_fresh_marker_not_pending(pending, next);
}

/// Appending a freshly issued marker keeps the pending set well formed under
/// the advanced marker counter.
proof fn lemma_pending_push(pending: Seq<PendingRefresh>, next: u32, e: PendingRefresh)
    requires
        pending_wf(pending, next),
        e.marker == next,
        next < u32::MAX,
    ensures
        pending_wf(pending.push(e), (next + 1) as u32),
{
    let p = pending.push(e);
    assert forall|i: int| 0 <= i < p.len() implies (#[trigger] p[i]).marker < next + 1 by {
        if i < pending.len() {
            assert(p[i] == pending[i]);
        }
    }
    assert forall|i: int, j: int|
        0 <= i < p.len() && 0 <= j < p.len() && i != j implies (#[trigger] p[i]).marker != (
    #[trigger] p[j]).marker by {
        if i < pending.len() && j < pending.len() {
            assert(p[i] == pending[i] && p[j] == pending[j]);
        } else if i < pending.len() {
            assert(p[i] == pending[i] && p[j] == e);
        } else if j < pending.len() {
            assert(p[i] == e && p[j] == pending[j]);
        }
    }
}

/// Advancing the marker counter alone keeps the pending set well formed.
proof fn lemma_pending_next_mono(pending: Seq<PendingRefresh>, next: u32)
    requires
        pending_wf(pending, next),
        next < u32::MAX,
    ensures
        pending_wf(pending, (next + 1) as u32),
{
}

/// Retiring any entry keeps the pending set well formed.
proof fn lemma_pending_remove(pending: Seq<PendingRefresh>, next: u32, idx: int)
    requires
        pending_wf(pending, next),
        0 <= idx < pending.len(),
    ensures
        pending_wf(pending.remove(idx), next),
{
    let p = pending.remove(idx);
    assert forall|i: int| 0 <= i < p.len() implies (#[trigger] p[i]).marker < next by {
        if i < idx {
            assert(p[i] == pending[i]);
        } else {
            assert(p[i] == pending[i + 1]);
        }
    }
    assert forall|i: int, j: int|
        0 <= i < p.len() && 0 <= j < p.len() && i != j implies (#[trigger] p[i]).marker != (
    #[trigger] p[j]).marker by {
        let i0 = if i < idx {
            i
        } else {
            i + 1
        };
        let j0 = if j < idx {
            j
        } else {
            j + 1
        };
        assert(p[i] == pending[i0] && p[j] == pending[j0]);
    }
}

/// A linear search that stopped at `i` has found the first occurrence, or has
/// ruled every entry out.
proof fn lemma_marker_index_first(pending: Seq<PendingRefresh>, marker: u32, i: int)
    requires
        0 <= i <= pending.len(),
        forall|j: int| 0 <= j < i ==> (#[trigger] pending[j]).marker != marker,
        i < pending.len() ==> pending[i].marker == marker,
    ensures
        i < pending.len() ==> marker_index(pending, marker) == i,
        i == pending.len() ==> marker_index(pending, marker) == -1,
    decreases i, pending.len(),
{
    if pending.len() == 0 {
    } else if i == 0 {
    } else {
        assert(pending[0].marker != marker);
        assert forall|j: int| 0 <= j < i - 1 implies (#[trigger] pending.skip(1)[j]).marker
            != marker by {
            assert(pending.skip(1)[j] == pending[j + 1]);
        }
        if i < pending.len() {
            assert(pending.skip(1)[i - 1] == pending[i]);
        }
        lemma_marker_index_first(pending.skip(1), marker, i - 1);
    }
}

// ---------------------------------------------------------------------------
// Alignment
// ---------------------------------------------------------------------------
/// Largest multiple of 8 at most `v`.
pub open spec fn align_down8(v: int) -> int {
    v - v % 8
}

/// Smallest multiple of 8 at least `v`.
pub open spec fn align_up8(v: int) -> int {
    if v % 8 == 0 {
        v
    } else {
        v + 8 - v % 8
    }
}

/// The region the hardware is actually asked to refresh for a request of `r`
/// on a `panel_w` x `panel_h` panel: expanded outward to 8x8 blocks, clipped
/// to the panel.
pub open spec fn spec_align_region(r: Rect, panel_w: int, panel_h: int) -> Rect {
    let top = align_down8(r.top as int);
    let left = align_down8(r.left as int);
    let bottom = if align_up8(r.top + r.height) <= panel_h {
        align_up8(r.top + r.height)
    } else {
        panel_h
    };
    let right = if align_up8(r.left + r.width) <= panel_w {
        align_up8(r.left + r.width)
    } else {
        panel_w
    };
    Rect {
        top: top as u32,
        left: left as u32,
        width: (right - left) as u32,
        height: (bottom - top) as u32,
    }
}

/// Expands a requested rectangle to the 8x8-block and 32-bit address
/// alignment the refresh engine needs, clipped to the panel. The physically
/// refreshed area may exceed the request but always covers it
/// (`lemma_align_covers`).
pub fn align_region(region: &Rect, panel_width: u32, panel_height: u32) -> (r: Rect)
    requires
        region.spec_in_panel(panel_width as int, panel_height as int),
    ensures
        r == spec_align_region(*region, panel_width as int, panel_height as int),
{
    let top: u32 = region.top - region.top % 8;
    let left: u32 = region.left - region.left % 8;
    let bottom_req: u64 = (region.top as u64) + (region.height as u64);
    let right_req: u64 = (region.left as u64) + (region.width as u64);
    let bottom_aligned: u64 = if bottom_req % 8 == 0 {
        bottom_req
    } else {
        bottom_req + 8 - bottom_req % 8
    };
    let right_aligned: u64 = if right_req % 8 == 0 {
        right_req
    } else {
        right_req + 8 - right_req % 8
    };
    let bottom: u64 = if bottom_aligned <= (panel_height as u64) {
        bottom_aligned
    } else {
        panel_height as u64
    };
    let right: u64 = if right_aligned <= (panel_width as u64) {
        right_aligned
    } else {
        panel_width as u64
    };
    Rect {
        top,
        left,
        width: (right - (left as u64)) as u32,
        height: (bottom - (top as u64)) as u32,
    }
}

/// Alignment expansion is sound: the issued region stays within the panel,
/// covers the requested rectangle, starts on an 8-pixel boundary in both
/// axes, and each lower-right edge either falls on an 8-pixel boundary or
/// clips at the panel edge.
pub proof fn lemma_align_covers(r: Rect, panel_w: int, panel_h: int)
    requires
        r.spec_in_panel(panel_w, panel_h),
        panel_w <= u32::MAX,
        panel_h <= u32::MAX,
    ensures
        ({
            let a = spec_align_region(r, panel_w, panel_h);
            &&& a.spec_contains(r) || r.is_sentinel()
            &&& a.spec_in_panel(panel_w, panel_h)
            &&& a.top % 8 == 0
            &&& a.left % 8 == 0
            &&& (a.top + a.height) % 8 == 0 || a.top + a.height == panel_h
            &&& (a.left + a.width) % 8 == 0 || a.left + a.width == panel_w
            &&& a.top <= r.top
            &&& a.left <= r.left
        }),
{
    let a = spec_align_region(r, panel_w, panel_h);
    if !r.is_sentinel() {
        if r.is_empty() {
            assert(a.spec_contains(r));
        } else {
            assert(a.top <= r.top && a.left <= r.left);
            assert(r.top + r.height <= a.top + a.height);
            assert(r.left + r.width <= a.left + a.width);
            assert(!a.is_sentinel());
            assert(a.spec_contains(r));
        }
    }
}

/// An 8-pixel-aligned column, at any whole number of bytes per pixel, falls
/// on a 32-bit address boundary.
pub proof fn lemma_aligned_addresses(left: int, bpp: int)
    by (nonlinear_arith)
    requires
        left >= 0,
        left % 8 == 0,
        bpp >= 1,
    ensures
        (left * bpp) % 4 == 0,
{
    let k = left / 8;
    assert(left == 8 * k);
    assert(left * bpp == 4 * (2 * k * bpp));
}

// ---------------------------------------------------------------------------
// Coalescing
// ---------------------------------------------------------------------------
/// Caller-side tracker for the most recently issued refresh rectangle, used
/// to suppress redundant partial refreshes: a high-frequency caller should
/// skip a new request whose rectangle is already fully contained in the last
/// one issued. Starts at the sentinel, which contains nothing, so the first
/// request is never suppressed.
pub struct RefreshTracker {
    /// The last rectangle issued; the sentinel when none has been.
    pub last: Rect,
}

impl RefreshTracker {
    /// Whether a refresh of `dirty` is still needed, i.e. not already covered
    /// by the most recently issued rectangle.
    pub open spec fn spec_needs_refresh(self, dirty: Rect) -> bool {
        !self.last.spec_contains(dirty)
    }

    pub fn new() -> (r: RefreshTracker)
        ensures
            r.last == Rect::spec_sentinel(),
    {
        RefreshTracker { last: Rect::sentinel() }
    }

    /// True when `dirty` is not fully contained in the last issued rectangle,
    /// so a new request is warranted.
    pub fn needs_refresh(&self, dirty: &Rect) -> (r: bool)
        ensures
            r == self.spec_needs_refresh(*dirty),
    {
        !self.last.contains(dirty)
    }

    /// Records the rectangle of a refresh that was just issued.
    pub fn record(&mut self, issued: &Rect)
        ensures
            *final(self) == (RefreshTracker { last: *issued }),
    {
        self.last = *issued;
    }
}

/// The refresh control surface: full/partial refresh submission under fresh
/// markers, and blocking (here: marker-retiring) waits.
pub trait FramebufferRefresh: Sized {
    /// Well-formedness carried through every operation.
    spec fn rf_wf(&self) -> bool;

    /// There is marker headroom left for one more submission.
    spec fn rf_can_submit(&self) -> bool;

    /// `region` lies within the panel.
    spec fn rf_region_ok(&self, region: Rect) -> bool;

    /// Refreshes the entire panel. When `wait_completion` is set, the call
    /// does not return before the refresh has completed; the returned marker
    /// has then already retired.
    fn full_refresh(
        &mut self,
        waveform_mode: WaveformMode,
        temperature: DisplayTemp,
        dither_mode: DitherMode,
        quant_bit: i32,
        wait_completion: bool,
    ) -> (marker: u32)
        requires
            old(self).rf_wf(),
            old(self).rf_can_submit(),
        ensures
            final(self).rf_wf(),
    ;

    /// Refreshes `region`, expanded to hardware alignment. `DryRun` performs
    /// the collision probe only and returns its result; `Async` submits and
    /// returns the fresh marker at once; `Wait` submits and returns the
    /// marker only once it has retired.
    fn partial_refresh(
        &mut self,
        region: &Rect,
        mode: PartialRefreshMode,
        waveform_mode: WaveformMode,
        temperature: DisplayTemp,
        dither_mode: DitherMode,
        quant_bit: i32,
    ) -> (r: u32)
        requires
            old(self).rf_wf(),
            old(self).rf_region_ok(*region),
            mode == PartialRefreshMode::DryRun || old(self).rf_can_submit(),
        ensures
            final(self).rf_wf(),
    ;

    /// Blocks until the named marker's refresh is complete and returns the
    /// collision-test value recorded for it; a retired or unknown marker
    /// returns `MARKER_RETIRED` immediately.
    fn wait_refresh_complete(&mut self, marker: u32) -> (r: u32)
        requires
            old(self).rf_wf(),
        ensures
            final(self).rf_wf(),
    ;
}

impl Framebuffer {
    /// The whole panel as a rectangle.
    pub open spec fn spec_panel_rect(self) -> Rect {
        Rect { top: 0, left: 0, width: self.width, height: self.height }
    }

    /// Whether `region` overlaps the region of any in-flight refresh: the
    /// dry-run collision probe.
    fn collision_probe(&self, region: &Rect) -> (r: bool)
        ensures
            r == spec_collides(self.pending@, *region),
    {
        let mut i: usize = 0;
        while i < self.pending.len()
            invariant
                i <= self.pending@.len(),
                forall|j: int|
                    0 <= j < i ==> !(#[trigger] self.pending@[j]).region.spec_overlaps(*region),
            decreases self.pending@.len() - i,
        {
            let e = self.pending[i];
            if e.region.intersects(region) {
                proof {
                    crate::geom::lemma_overlaps_iff_intersects(e.region, *region);
                }
                return true;
            }
            proof {
                crate::geom::lemma_overlaps_iff_intersects(e.region, *region);
            }
            i = i + 1;
        }
        false
    }
}

impl FramebufferRefresh for Framebuffer {
    open spec fn rf_wf(&self) -> bool {
        self.wf()
    }

    open spec fn rf_can_submit(&self) -> bool {
        self.next_marker < u32::MAX
    }

    open spec fn rf_region_ok(&self, region: Rect) -> bool {
        region.spec_in_panel(self.width as int, self.height as int)
    }

    fn full_refresh(
        &mut self,
        waveform_mode: WaveformMode,
        temperature: DisplayTemp,
        dither_mode: DitherMode,
        quant_bit: i32,
        wait_completion: bool,
    ) -> (marker: u32)
        ensures
            old(self).eq_but_markers(*final(self)),
            marker == old(self).next_marker,
            final(self).next_marker == old(self).next_marker + 1,
            wait_completion ==> final(self).pending@ == old(self).pending@,
            !wait_completion ==> final(self).pending@ == old(self).pending@.push(
                PendingRefresh {
                    marker: old(self).next_marker,
                    region: old(self).spec_panel_rect(),
                    collision: spec_collision_of(old(self).pending@, old(self).spec_panel_rect()),
                },
            ),
    {
        let panel = Rect { top: 0, left: 0, width: self.width, height: self.height };
        let collides = self.collision_probe(&panel);
        let marker = self.next_marker;
        self.next_marker = self.next_marker + 1;
        if wait_completion {
            proof {
                lemma_pending_next_mono(self.pending@, marker);
            }
        } else {
            let entry = PendingRefresh {
                marker,
                region: panel,
                collision: if collides {
                    1
                } else {
                    0
                },
            };
            proof {
                lemma_pending_push(self.pending@, marker, entry);
            }
            self.pending.push(entry);
        }
        marker
    }

    fn partial_refresh(
        &mut self,
        region: &Rect,
        mode: PartialRefreshMode,
        waveform_mode: WaveformMode,
        temperature: DisplayTemp,
        dither_mode: DitherMode,
        quant_bit: i32,
    ) -> (r: u32)
        ensures
            old(self).eq_but_markers(*final(self)),
            ({
                let aligned = spec_align_region(
                    *region,
                    old(self).width as int,
                    old(self).height as int,
                );
                &&& mode == PartialRefreshMode::DryRun ==> *final(self) == *old(self) && r
                    == spec_collision_of(old(self).pending@, aligned)
                &&& mode == PartialRefreshMode::Async ==> final(self).next_marker == old(
                    self,
                ).next_marker + 1 && r == old(self).next_marker && final(self).pending@ == old(
                    self,
                ).pending@.push(
                    PendingRefresh {
                        marker: old(self).next_marker,
                        region: aligned,
                        collision: spec_collision_of(old(self).pending@, aligned),
                    },
                )
                &&& mode == PartialRefreshMode::Wait ==> final(self).next_marker == old(
                    self,
                ).next_marker + 1 && r == old(self).next_marker && final(self).pending@ == old(
                    self,
                ).pending@
            }),
    {
        let aligned = align_region(region, self.width, self.height);
        let collides = self.collision_probe(&aligned);
        match mode {
            PartialRefreshMode::DryRun => {
                if collides {
                    1
                } else {
                    0
                }
            },
            PartialRefreshMode::Async => {
                let marker = self.next_marker;
                self.next_marker = self.next_marker + 1;
                let entry = PendingRefresh {
                    marker,
                    region: aligned,
                    collision: if collides {
                        1
                    } else {
                        0
                    },
                };
                proof {
                    lemma_pending_push(self.pending@, marker, entry);
                }
                self.pending.push(entry);
                marker
            },
            PartialRefreshMode::Wait => {
                let marker = self.next_marker;
                self.next_marker = self.next_marker + 1;
                proof {
                    lemma_pending_next_mono(self.pending@, marker);
                }
                marker
            },
        }
    }

    fn wait_refresh_complete(&mut self, marker: u32) -> (r: u32)
        ensures
            old(self).eq_but_markers(*final(self)),
            final(self).next_marker == old(self).next_marker,
            final(self).pending@ == spec_wait_pending(old(self).pending@, marker),
            r == spec_wait_result(old(self).pending@, marker),
    {
        let mut i: usize = 0;
        while i < self.pending.len()
            invariant
                *self == *old(self),
                old(self).wf(),
                i <= self.pending@.len(),
                forall|j: int| 0 <= j < i ==> (#[trigger] self.pending@[j]).marker != marker,
            decreases self.pending@.len() - i,
        {
            if self.pending[i].marker == marker {
                proof {
                    lemma_marker_index_first(self.pending@, marker, i as int);
                    lemma_pending_remove(self.pending@, self.next_marker, i as int);
                }
                let c = self.pending[i].collision;
                self.pending.remove(i);
                return c;
            }
            i = i + 1;
        }
        proof {
            lemma_marker_index_first(self.pending@, marker, i as int);
        }
        MARKER_RETIRED
    }
}

/// Coalescing suppresses contained strokes: a rectangle already contained in
/// the most recently issued one needs no refresh of its own.
pub proof fn lemma_coalesce_suppresses(t: RefreshTracker, bound: Rect)
    requires
        t.last.spec_contains(bound),
    ensures
        !t.spec_needs_refresh(bound),
{
}

/// Coalescing a stroke: when the three points of a new stroke all lie in the
/// most recently issued rectangle, the stroke's bounding rectangle is
/// contained in it, and the tracker reports that no new refresh request is
/// warranted.
pub proof fn lemma_stroke_coalesced(
    t: RefreshTracker,
    p1: (u32, u32),
    p2: (u32, u32),
    p3: (u32, u32),
)
    requires
        p1.0 < u32::MAX && p1.1 < u32::MAX,
        p2.0 < u32::MAX && p2.1 < u32::MAX,
        p3.0 < u32::MAX && p3.1 < u32::MAX,
        t.last.spec_contains_point(p1.0 as int, p1.1 as int),
        t.last.spec_contains_point(p2.0 as int, p2.1 as int),
        t.last.spec_contains_point(p3.0 as int, p3.1 as int),
    ensures
        t.last.spec_contains(crate::geom::spec_stroke_bound(p1, p2, p3)),
        !t.spec_needs_refresh(crate::geom::spec_stroke_bound(p1, p2, p3)),
{
    crate::geom::lemma_stroke_bound(p1, p2, p3);
}

} // verus!
