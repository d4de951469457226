use automancy::compositor::{pace_frame, FrameCompositor, FrameStart, Pacing, Pass, UPDATE_INTERVAL_NS};

fn ready() -> FrameCompositor<u32, u32> {
    let mut f: FrameCompositor<u32, u32> = FrameCompositor::new();
    f.tiles.begin_refresh();
    f.tiles.finish_refresh(Some(1));
    f
}

#[test]
fn empty_window_issues_nothing() {
    let mut f: FrameCompositor<u32, u32> = FrameCompositor::new();
    assert_eq!(f.begin_frame(0, 0, 5), FrameStart::EmptyWindow);
    assert!(!f.tiles.is_fetching());
    assert!(!f.records.is_fetching());
    assert_eq!(f.begin_frame(800, 0, 5), FrameStart::EmptyWindow);
}

#[test]
fn first_frame_without_snapshot_is_skipped() {
    let mut f: FrameCompositor<u32, u32> = FrameCompositor::new();
    assert_eq!(f.begin_frame(800, 600, 5), FrameStart::NoSnapshot { fetch_tiles: true, fetch_records: true });
    assert_eq!(f.begin_frame(800, 600, 6), FrameStart::NoSnapshot { fetch_tiles: false, fetch_records: false });
    assert!(f.tiles.is_fetching());
    assert!(f.records.is_fetching());
}

#[test]
fn recompute_is_rate_limited() {
    let mut f = ready();
    let t0 = 1_000_000_000u64;
    assert_eq!(
        f.begin_frame(800, 600, t0),
        FrameStart::Ready { fetch_tiles: true, fetch_records: true, recompute: false }
    );
    assert_eq!(
        f.begin_frame(800, 600, t0 + 1_000),
        FrameStart::Ready { fetch_tiles: false, fetch_records: false, recompute: false }
    );
    assert_eq!(
        f.begin_frame(800, 600, t0 + UPDATE_INTERVAL_NS),
        FrameStart::Ready { fetch_tiles: false, fetch_records: false, recompute: true }
    );
    assert_eq!(f.last_update, Some(t0 + UPDATE_INTERVAL_NS));
    assert_eq!(
        f.begin_frame(800, 600, t0 + UPDATE_INTERVAL_NS + 5),
        FrameStart::Ready { fetch_tiles: false, fetch_records: false, recompute: false }
    );
}

#[test]
fn passes_run_in_fixed_order() {
    let mut f = ready();
    let p = f.plan_passes(800, 600, 800, 600, Some(3), false);
    assert_eq!(
        p,
        vec![
            Pass::ExtraObjects,
            Pass::MainTiles,
            Pass::PostProcessing,
            Pass::Antialiasing,
            Pass::Gui,
            Pass::Combine,
            Pass::Present
        ]
    );
}

#[test]
fn previous_batch_is_carried_over() {
    let mut f = ready();
    let p = f.plan_passes(800, 600, 800, 600, None, false);
    assert!(!p.contains(&Pass::MainTiles));
    f.plan_passes(800, 600, 800, 600, Some(2), false);
    let p = f.plan_passes(800, 600, 800, 600, None, false);
    assert!(p.contains(&Pass::MainTiles));
    assert_eq!(f.carried_draws, Some(2));
}

#[test]
fn main_pass_skipped_for_empty_batch() {
    let mut f = ready();
    let p = f.plan_passes(800, 600, 800, 600, Some(0), false);
    assert_eq!(p.len(), 6);
    assert!(!p.contains(&Pass::MainTiles));
}

#[test]
fn surface_size_mismatch_draws_nothing() {
    let mut f = ready();
    f.plan_passes(800, 600, 800, 600, Some(2), false);
    let p = f.plan_passes(640, 480, 800, 600, Some(0), true);
    assert!(p.is_empty());
    assert_eq!(f.carried_draws, Some(2));
    assert!(!f.screenshot_in_flight);
}

#[test]
fn one_screenshot_at_a_time() {
    let mut f = ready();
    let p = f.plan_passes(800, 600, 800, 600, None, true);
    assert_eq!(p.last(), Some(&Pass::ScreenshotCopy));
    let p = f.plan_passes(800, 600, 800, 600, None, true);
    assert!(!p.contains(&Pass::ScreenshotCopy));
    f.finish_screenshot();
    let p = f.plan_passes(800, 600, 800, 600, None, true);
    assert!(p.contains(&Pass::ScreenshotCopy));
}

#[test]
fn frame_pacing_follows_the_cap() {
    assert_eq!(pace_frame(0, 5), Pacing::Poll);
    assert_eq!(pace_frame(60, 10_000_000), Pacing::Idle);
    assert_eq!(pace_frame(60, 16_666_667), Pacing::RedrawThenWait { frame_time: 16_666_666 });
    assert_eq!(pace_frame(300, 1), Pacing::RedrawThenWait { frame_time: 0 });
    assert_eq!(pace_frame(300, 0), Pacing::Idle);
}
