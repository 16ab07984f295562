use libremarkable::framebuffer::Framebuffer;
use libremarkable::geom::Rect;
use libremarkable::refresh::{
    align_region, DisplayTemp, DitherMode, FramebufferRefresh, PartialRefreshMode, RefreshTracker,
    WaveformMode, MARKER_RETIRED,
};

fn fb() -> Framebuffer {
    Framebuffer::new(1404, 1872, 2)
}

fn partial(fb: &mut Framebuffer, region: &Rect, mode: PartialRefreshMode) -> u32 {
    fb.partial_refresh(
        region,
        mode,
        WaveformMode::Du,
        DisplayTemp::Ambient,
        DitherMode::Passthrough,
        0,
    )
}

#[test]
fn async_marker_then_wait_returns_recorded_collision() {
    let mut fb = fb();
    let region = Rect { top: 16, left: 16, width: 8, height: 8 };
    let m = partial(&mut fb, &region, PartialRefreshMode::Async);
    assert_eq!(m, 0);
    // nothing was in flight at submission: recorded collision is 0
    assert_eq!(fb.wait_refresh_complete(m), 0);
    // the marker has retired: both further waits return the sentinel
    assert_eq!(fb.wait_refresh_complete(m), MARKER_RETIRED);
    assert_eq!(fb.wait_refresh_complete(m), MARKER_RETIRED);
}

#[test]
fn wait_mode_marker_is_retired_on_return() {
    let mut fb = fb();
    let region = Rect { top: 0, left: 0, width: 8, height: 8 };
    let m = partial(&mut fb, &region, PartialRefreshMode::Wait);
    // the call blocked until its own marker retired, so a wait on it
    // returns immediately with the sentinel
    assert_eq!(fb.wait_refresh_complete(m), MARKER_RETIRED);
    assert!(fb.pending.is_empty());
}

#[test]
fn unknown_marker_returns_sentinel() {
    let mut fb = fb();
    assert_eq!(fb.wait_refresh_complete(123), MARKER_RETIRED);
}

#[test]
fn dry_run_probes_collisions_without_submitting() {
    let mut fb = fb();
    let first = Rect { top: 0, left: 0, width: 16, height: 16 };
    let m = partial(&mut fb, &first, PartialRefreshMode::Async);
    // overlapping probe collides, disjoint probe does not; neither issues
    let overlapping = Rect { top: 8, left: 8, width: 8, height: 8 };
    let disjoint = Rect { top: 512, left: 512, width: 8, height: 8 };
    assert_eq!(partial(&mut fb, &overlapping, PartialRefreshMode::DryRun), 1);
    assert_eq!(partial(&mut fb, &disjoint, PartialRefreshMode::DryRun), 0);
    assert_eq!(fb.pending.len(), 1);
    // a second overlapping submission records the collision for its wait
    let m2 = partial(&mut fb, &overlapping, PartialRefreshMode::Async);
    assert_eq!(fb.wait_refresh_complete(m2), 1);
    assert_eq!(fb.wait_refresh_complete(m), 0);
}

#[test]
fn markers_are_issued_monotonically() {
    let mut fb = fb();
    let region = Rect { top: 0, left: 0, width: 8, height: 8 };
    let m0 = partial(&mut fb, &region, PartialRefreshMode::Async);
    let m1 = partial(&mut fb, &region, PartialRefreshMode::Async);
    let m2 = fb.full_refresh(
        WaveformMode::Gc16,
        DisplayTemp::Max,
        DitherMode::Passthrough,
        0,
        false,
    );
    assert_eq!((m0, m1, m2), (0, 1, 2));
}

#[test]
fn full_refresh_wait_leaves_nothing_pending() {
    let mut fb = fb();
    let m = fb.full_refresh(
        WaveformMode::Init,
        DisplayTemp::Ambient,
        DitherMode::Passthrough,
        0,
        true,
    );
    assert!(fb.pending.is_empty());
    assert_eq!(fb.wait_refresh_complete(m), MARKER_RETIRED);
}

#[test]
fn alignment_expands_unaligned_single_pixel() {
    // a 1x1 request at an arbitrary unaligned coordinate
    let req = Rect { top: 43, left: 117, width: 1, height: 1 };
    let a = align_region(&req, 1404, 1872);
    assert_eq!(a, Rect { top: 40, left: 112, width: 8, height: 8 });
    // the refreshed region covers the request and sits on 8-pixel blocks
    assert!(a.contains(&req));
    assert_eq!(a.top % 8, 0);
    assert_eq!(a.left % 8, 0);
    assert_eq!((a.left + a.width) % 8, 0);
    assert_eq!((a.top + a.height) % 8, 0);
    // at 2 bytes per pixel the row start is 32-bit aligned
    assert_eq!((a.left * 2) % 4, 0);
}

#[test]
fn alignment_clips_at_panel_edge() {
    // 1404 is not a multiple of 8: the right edge clips to the panel
    let req = Rect { top: 0, left: 1400, width: 4, height: 4 };
    let a = align_region(&req, 1404, 1872);
    assert_eq!(a, Rect { top: 0, left: 1400, width: 4, height: 8 });
    assert!(a.contains(&req));
}

#[test]
fn submitted_region_is_the_aligned_one() {
    let mut fb = fb();
    let req = Rect { top: 43, left: 117, width: 1, height: 1 };
    let _ = partial(&mut fb, &req, PartialRefreshMode::Async);
    assert_eq!(fb.pending[0].region, Rect { top: 40, left: 112, width: 8, height: 8 });
    assert!(fb.pending[0].region.contains(&req));
}

#[test]
fn coalescing_three_collinear_points() {
    let mut tracker = RefreshTracker::new();
    let refreshed = Rect { top: 100, left: 100, width: 64, height: 64 };
    // nothing refreshed yet: the first request is never suppressed
    assert!(tracker.needs_refresh(&refreshed));
    tracker.record(&refreshed);
    // three collinear stylus points inside the refreshed rectangle
    let p1 = (110u32, 110u32);
    let p2 = (120u32, 120u32);
    let p3 = (130u32, 130u32);
    let bound = Rect::stroke_bound(p1, p2, p3);
    assert!(refreshed.contains(&bound));
    // the stroke's bounding rectangle is covered: no new refresh is issued
    assert!(!tracker.needs_refresh(&bound));
    // a stroke leaving the rectangle is not suppressed
    let outside = Rect::stroke_bound(p1, p2, (200, 200));
    assert!(tracker.needs_refresh(&outside));
}
