//! The decisions of one frame: whether to draw at all, which snapshot fetches
//! to issue, whether the primary tile batch is recomputed (at a fixed rate,
//! independent of the display rate) or carried over, and the ordered list of
//! GPU passes to record.
use vstd::prelude::*;
use crate::snapshot::{SnapshotCache, trigger_issues};

verus! {

/// Nanoseconds between two recomputes of the primary tile batch (60 per second).
pub const UPDATE_INTERVAL_NS: u64 = 16_666_666;

/// The GPU passes of a frame, in the order they are recorded.
#[derive(Clone, Copy, Debug, PartialEq, Eq, Structural)]
pub enum Pass {
    /// Clears the targets and draws the extra (decorative) objects.
    ExtraObjects,
    /// Draws the primary tile batch onto the extra objects' targets.
    MainTiles,
    PostProcessing,
    Antialiasing,
    Gui,
    Combine,
    Present,
    /// Renders the presented image into a copyable texture and copies it to the
    /// staging buffer.
    ScreenshotCopy,
}

/// What the event loop does while waiting for the next frame.
#[derive(Clone, Copy, Debug, PartialEq, Eq, Structural)]
pub enum Pacing {
    /// No frame cap: request a redraw and keep polling.
    Poll,
    /// Request a redraw now and wake again `frame_time` ns later.
    RedrawThenWait { frame_time: u64 },
    /// The frame time has not passed yet: do nothing.
    Idle,
}

/// Frame time, in ns, under a cap of `fps_limit` frames per second; from 250
/// on the cap is treated as none.
pub open spec fn frame_time_of(fps_limit: i32) -> int {
    if fps_limit >= 250 {
        0
    } else {
        1_000_000_000int / (fps_limit as int)
    }
}

/// The pacing under a cap of `fps_limit` (0: no cap), `since_frame_start` ns
/// after the current frame started: redraw once more than a frame time has
/// passed.
pub open spec fn pacing_of(fps_limit: i32, since_frame_start: u64) -> Pacing {
    if fps_limit == 0 {
        Pacing::Poll
    } else if since_frame_start > frame_time_of(fps_limit) {
        Pacing::RedrawThenWait { frame_time: frame_time_of(fps_limit) as u64 }
    } else {
        Pacing::Idle
    }
}

/// Decides what the event loop does while waiting for the next frame.
pub fn pace_frame(fps_limit: i32, since_frame_start: u64) -> (r: Pacing)
    requires
        fps_limit >= 0,
    ensures
        r == pacing_of(fps_limit, since_frame_start),
{
    if fps_limit == 0 {
        return Pacing::Poll;
    }
    let frame_time: u64 = if fps_limit >= 250 {
        0
    } else {
        1_000_000_000u64 / (fps_limit as u64)
    };
    if since_frame_start > frame_time {
        Pacing::RedrawThenWait { frame_time }
    } else {
        Pacing::Idle
    }
}

/// How a frame starts.
#[derive(Clone, Copy, Debug, PartialEq, Eq, Structural)]
pub enum FrameStart {
    /// The window has no area: nothing is issued this frame.
    EmptyWindow,
    /// No snapshot has arrived yet: nothing is drawn this frame.
    NoSnapshot { fetch_tiles: bool, fetch_records: bool },
    /// Draw from the cached snapshot.
    Ready { fetch_tiles: bool, fetch_records: bool, recompute: bool },
}

/// The render-thread state that outlives a frame: the two snapshot caches, the
/// time of the last primary-batch recompute, the draw count of the batch carried
/// over from the last recompute, and whether a screenshot is being captured.
pub struct FrameCompositor<S, R> {
    pub tiles: SnapshotCache<S>,
    pub records: SnapshotCache<R>,
    pub last_update: Option<u64>,
    pub carried_draws: Option<usize>,
    pub screenshot_in_flight: bool,
}

/// Whether the primary batch is recomputed at `now`. The first frame only
/// records the time, so the first recompute comes one interval later.
pub open spec fn update_due(last_update: Option<u64>, now: u64) -> bool {
    match last_update {
        None => false,
        Some(last) => now >= last && now - last >= UPDATE_INTERVAL_NS,
    }
}

pub open spec fn next_last_update(last_update: Option<u64>, now: u64) -> Option<u64> {
    if update_due(last_update, now) {
        Some(now)
    } else {
        match last_update {
            None => Some(now),
            Some(last) => Some(last),
        }
    }
}

/// The passes of a frame, in order: the main tile pass only when the batch in
/// use has draws, the screenshot copy only when one is captured.
pub open spec fn pass_order(main_tiles: bool, screenshot: bool) -> Seq<Pass> {
    seq![Pass::ExtraObjects] + (if main_tiles {
        seq![Pass::MainTiles]
    } else {
        Seq::empty()
    }) + seq![Pass::PostProcessing, Pass::Antialiasing, Pass::Gui, Pass::Combine, Pass::Present]
        + (if screenshot {
        seq![Pass::ScreenshotCopy]
    } else {
        Seq::empty()
    })
}

/// The batch a frame draws: a fresh one, else the one carried over.
pub open spec fn batch_in_use(fresh_draws: Option<usize>, carried: Option<usize>) -> Option<usize> {
    match fresh_draws {
        Some(d) => Some(d),
        None => carried,
    }
}

impl<S, R> FrameCompositor<S, R> {
    pub fn new() -> (r: FrameCompositor<S, R>)
        ensures
            r.tiles.snapshot is None,
            !r.tiles.fetching,
            r.records.snapshot is None,
            !r.records.fetching,
            r.last_update is None,
            r.carried_draws is None,
            !r.screenshot_in_flight,
    {
        FrameCompositor {
            tiles: SnapshotCache::new(),
            records: SnapshotCache::new(),
            last_update: None,
            carried_draws: None,
            screenshot_in_flight: false,
        }
    }

    /// Starts a frame of a `width` x `height` window at time `now` (ns). An empty
    /// window skips the frame and changes nothing. Otherwise both the tile
    /// snapshot and the transaction records are refreshed (each only if no fetch
    /// of it is outstanding); with no tile snapshot yet the frame is then
    /// skipped; else the primary batch is recomputed when the update interval
    /// has passed.
    pub fn begin_frame(&mut self, width: u32, height: u32, now: u64) -> (r: FrameStart)
        ensures
            (width == 0 || height == 0) ==> r == FrameStart::EmptyWindow && *final(self) == *old(self),
            (width != 0 && height != 0) ==> {
                &&& final(self).tiles.fetching
                &&& final(self).tiles.snapshot == old(self).tiles.snapshot
                &&& final(self).records.fetching
                &&& final(self).records.snapshot == old(self).records.snapshot
                &&& final(self).carried_draws == old(self).carried_draws
                &&& final(self).screenshot_in_flight == old(self).screenshot_in_flight
            },
            (width != 0 && height != 0 && old(self).tiles.snapshot is None) ==> {
                &&& r == (FrameStart::NoSnapshot {
                    fetch_tiles: trigger_issues(old(self).tiles.fetching),
                    fetch_records: trigger_issues(old(self).records.fetching),
                })
                &&& final(self).last_update == old(self).last_update
            },
            (width != 0 && height != 0 && old(self).tiles.snapshot is Some) ==> {
                &&& r == (FrameStart::Ready {
                    fetch_tiles: trigger_issues(old(self).tiles.fetching),
                    fetch_records: trigger_issues(old(self).records.fetching),
                    recompute: update_due(old(self).last_update, now),
                })
                &&& final(self).last_update == next_last_update(old(self).last_update, now)
            },
    {
        if width == 0 || height == 0 {
            return FrameStart::EmptyWindow;
        }
        let fetch_tiles = self.tiles.begin_refresh();
        let fetch_records = self.records.begin_refresh();
        if self.tiles.snapshot.is_none() {
            return FrameStart::NoSnapshot { fetch_tiles, fetch_records };
        }
        let recompute = match self.last_update {
            None => {
                self.last_update = Some(now);
                false
            },
            Some(last) => {
                if now >= last && now - last >= UPDATE_INTERVAL_NS {
                    self.last_update = Some(now);
                    true
                } else {
                    false
                }
            },
        };
        FrameStart::Ready { fetch_tiles, fetch_records, recompute }
    }

    /// Plans the passes once the surface texture is acquired. A surface whose
    /// size differs from the window's means nothing is drawn this frame. Else the
    /// frame draws the fresh batch (`fresh_draws`: its number of draws, when the
    /// batch was recomputed this frame) or the one carried over, which the fresh
    /// one replaces; the main tile pass is left out when that batch has no draw.
    /// A screenshot is captured when requested and none is in flight.
    pub fn plan_passes(
        &mut self,
        surface_width: u32,
        surface_height: u32,
        window_width: u32,
        window_height: u32,
        fresh_draws: Option<usize>,
        screenshot_requested: bool,
    ) -> (r: Vec<Pass>)
        ensures
            (surface_width != window_width || surface_height != window_height) ==> r@.len() == 0
                && *final(self) == *old(self),
            (surface_width == window_width && surface_height == window_height) ==> {
                let batch = batch_in_use(fresh_draws, old(self).carried_draws);
                let shot = screenshot_requested && !old(self).screenshot_in_flight;
                &&& r@ == pass_order(batch matches Some(d) && d > 0, shot)
                &&& final(self).carried_draws == batch
                &&& final(self).screenshot_in_flight == (old(self).screenshot_in_flight || shot)
                &&& final(self).tiles == old(self).tiles
                &&& final(self).records == old(self).records
                &&& final(self).last_update == old(self).last_update
            },
    {
        let mut passes: Vec<Pass> = Vec::new();
        if surface_width != window_width || surface_height != window_height {
            return passes;
        }
        let batch = match fresh_draws {
            Some(d) => Some(d),
            None => self.carried_draws,
        };
        self.carried_draws = batch;
        let shot = screenshot_requested && !self.screenshot_in_flight;
        if shot {
            self.screenshot_in_flight = true;
        }
        passes.push(Pass::ExtraObjects);
        let main_tiles = match batch {
            Some(d) => d > 0,
            None => false,
        };
        if main_tiles {
            passes.push(Pass::MainTiles);
        }
        passes.push(Pass::PostProcessing);
        passes.push(Pass::Antialiasing);
        passes.push(Pass::Gui);
        passes.push(Pass::Combine);
        passes.push(Pass::Present);
        if shot {
            passes.push(Pass::ScreenshotCopy);
        }
        assert(passes@ =~= pass_order(main_tiles, shot));
        passes
    }

    /// The screenshot's readback finished (or was abandoned): another may start.
    pub fn finish_screenshot(&mut self)
        ensures
            !final(self).screenshot_in_flight,
            final(self).tiles == old(self).tiles,
            final(self).records == old(self).records,
            final(self).last_update == old(self).last_update,
            final(self).carried_draws == old(self).carried_draws,
    {
        self.screenshot_in_flight = false;
    }
}

} // verus!
