//! Frame capture: the captured frame, pixel conversion, the policy that
//! moves capture from one display to another, and the decisions of the
//! capture loop.

use crate::cursor::{cursor_drawn, draw_cursor};
use crate::display_info::{
    display_at, get_display_at_cursor, largest_dimensions, max_dimensions, DisplayInfo,
};
use crate::error::ScreenRecError;
use crate::text::{decimal, push_decimal};
use vstd::prelude::*;
use vstd::string::*;

verus! {

/// One captured image: packed RGB bytes, row after row without padding.
#[derive(Debug, Clone)]
pub struct Frame {
    pub data: Vec<u8>,
    pub width: usize,
    pub height: usize,
    /// Microseconds since the first captured frame, by the monotonic clock.
    pub timestamp_us: u64,
    /// Wall-clock time of capture, in milliseconds since the Unix epoch.
    pub captured_at_ms: i64,
    pub display_index: usize,
}

/// The RGB bytes of a BGRA buffer: for each whole group of four bytes the
/// third, second and first, the fourth (alpha) left out.
pub open spec fn rgb_of_bgra(bgra: Seq<u8>) -> Seq<u8> {
    Seq::new(((bgra.len() / 4) * 3) as nat, |i: int| bgra[(i / 3) * 4 + (2 - i % 3)])
}

/// Converts a BGRA buffer to packed RGB.
pub fn bgra_to_rgb(bgra: &[u8]) -> (rgb: Vec<u8>)
    ensures
        rgb@ == rgb_of_bgra(bgra@),
{
    let pixels: usize = bgra.len() / 4;
    let mut rgb: Vec<u8> = Vec::new();
    let mut p: usize = 0;
    while p < pixels
        invariant
            p <= pixels,
            pixels == bgra@.len() / 4,
            bgra@.len() <= usize::MAX,
            rgb@.len() == p * 3,
            forall|i: int| 0 <= i < p * 3 ==> rgb@[i] == bgra@[(i / 3) * 4 + (2 - i % 3)],
        decreases pixels - p,
    {
        rgb.push(bgra[p * 4 + 2]);
        rgb.push(bgra[p * 4 + 1]);
        rgb.push(bgra[p * 4]);
        p += 1;
    }
    assert(rgb@ =~= rgb_of_bgra(bgra@));
    rgb
}

/// What the switch policy remembers between two checks.
pub struct SwitchState {
    /// The display that is being captured.
    pub current: usize,
    /// A display other than the current one on which the cursor was seen at
    /// the last check.
    pub pending: Option<usize>,
    /// How many checks in a row saw the cursor on the pending display.
    pub count: u8,
}

impl SwitchState {
    /// The count is 1 while a display is pending and 0 otherwise.
    pub open spec fn wf(self) -> bool {
        match self.pending {
            Some(_) => self.count == 1,
            None => self.count == 0,
        }
    }
}

/// The policy's reaction to seeing the cursor on display `seen`: the new
/// state, and the display to switch to if the sighting completes a switch.
/// A sighting on the current display clears what was pending.  A second
/// sighting in a row on the pending display commits the switch.  Any other
/// sighting makes that display pending.
pub open spec fn observe(s: SwitchState, seen: usize) -> (SwitchState, Option<usize>) {
    if seen == s.current {
        (SwitchState { current: s.current, pending: None, count: 0 }, None)
    } else if s.pending == Some(seen) {
        if s.count + 1 >= 2 {
            (SwitchState { current: seen, pending: None, count: 0 }, Some(seen))
        } else {
            (
                SwitchState { current: s.current, pending: s.pending, count: (s.count + 1) as u8 },
                None,
            )
        }
    } else {
        (SwitchState { current: s.current, pending: Some(seen), count: 1 }, None)
    }
}

/// The state after a run of sightings.
pub open spec fn after_sightings(s: SwitchState, seen: Seq<usize>) -> SwitchState
    decreases seen.len(),
{
    if seen.len() == 0 {
        s
    } else {
        observe(after_sightings(s, seen.drop_last()), seen.last()).0
    }
}

/// The switch, if any, that sighting number `k` of a run brings about.
pub open spec fn switch_at(s: SwitchState, seen: Seq<usize>, k: int) -> Option<usize> {
    observe(after_sightings(s, seen.take(k)), seen[k]).1
}

/// After a sighting the state is well formed, and a display is pending
/// only if it is the one just seen.
pub proof fn lemma_observe_pending(s: SwitchState, seen: usize)
    requires
        s.wf(),
    ensures
        observe(s, seen).0.wf(),
        observe(s, seen).0.pending is Some ==> observe(s, seen).0.pending == Some(seen),
        observe(s, seen).1 is Some ==> observe(s, seen).1 == Some(seen) && s.pending == Some(
            seen,
        ) && seen != s.current,
{
}

/// Well-formedness survives any run of sightings.
pub proof fn lemma_after_sightings_wf(s: SwitchState, seen: Seq<usize>)
    requires
        s.wf(),
    ensures
        after_sightings(s, seen).wf(),
        seen.len() > 0 && after_sightings(s, seen).pending is Some ==> after_sightings(
            s,
            seen,
        ).pending == Some(seen.last()),
    decreases seen.len(),
{
    if seen.len() > 0 {
        lemma_after_sightings_wf(s, seen.drop_last());
        lemma_observe_pending(after_sightings(s, seen.drop_last()), seen.last());
    }
}

/// The policy never switches on a single sighting: a switch to display `d`
/// at one check means that this check and the check before it both saw the
/// cursor on `d`.  At the first check of a run the earlier sighting is the
/// one that the starting state holds as pending; a policy that starts with
/// nothing pending cannot switch there.
pub proof fn lemma_switch_needs_two_sightings(s: SwitchState, seen: Seq<usize>, k: int, d: usize)
    requires
        s.wf(),
        0 <= k < seen.len(),
        switch_at(s, seen, k) == Some(d),
    ensures
        seen[k] == d,
        k >= 1 ==> seen[k - 1] == d,
        k == 0 ==> s.pending == Some(d),
{
    let before = after_sightings(s, seen.take(k));
    lemma_after_sightings_wf(s, seen.take(k));
    lemma_observe_pending(before, seen[k]);
    if k >= 1 {
        assert(seen.take(k).last() == seen[k - 1]);
    }
}

/// Decides when capture follows the cursor to another display.
pub struct MonitorSwitchDetector {
    pub check_interval_ms: u64,
    pub last_check_ms: u64,
    pub current_display: usize,
    pub pending_display: Option<usize>,
    pub pending_count: u8,
    pub displays_info: Vec<DisplayInfo>,
}

impl MonitorSwitchDetector {
    /// What the policy remembers.
    pub open spec fn state(self) -> SwitchState {
        SwitchState {
            current: self.current_display,
            pending: self.pending_display,
            count: self.pending_count,
        }
    }

    /// The pending count agrees with the pending display.
    pub open spec fn wf(self) -> bool {
        self.state().wf()
    }

    /// A detector that captures `initial_display`, has nothing pending and
    /// counts its interval from `now_ms`.
    pub fn new(
        check_interval_ms: u64,
        initial_display: usize,
        displays_info: Vec<DisplayInfo>,
        now_ms: u64,
    ) -> (r: MonitorSwitchDetector)
        ensures
            r.wf(),
            r.check_interval_ms == check_interval_ms,
            r.last_check_ms == now_ms,
            r.current_display == initial_display,
            r.pending_display is None,
            r.pending_count == 0,
            r.displays_info@ == displays_info@,
    {
        MonitorSwitchDetector {
            check_interval_ms,
            last_check_ms: now_ms,
            current_display: initial_display,
            pending_display: None,
            pending_count: 0,
            displays_info,
        }
    }

    /// Whether a check at `now_ms` comes too soon after the last one.
    pub open spec fn too_soon(self, now_ms: u64) -> bool {
        now_ms < self.last_check_ms || now_ms - self.last_check_ms < self.check_interval_ms
    }

    /// One check of the policy at time `now_ms` with the cursor position as
    /// last reported.  Within the check interval nothing happens.  Otherwise
    /// the check is timed, and a known cursor position is a sighting on the
    /// display that holds it.  Returns the display to switch to, if the
    /// sighting completes a switch.
    pub fn check_for_switch(&mut self, now_ms: u64, cursor: Option<(i32, i32)>) -> (r: Option<
        usize,
    >)
        requires
            old(self).wf(),
        ensures
            final(self).wf(),
            final(self).check_interval_ms == old(self).check_interval_ms,
            final(self).displays_info@ == old(self).displays_info@,
            old(self).too_soon(now_ms) ==> r is None && final(self).state() == old(self).state()
                && final(self).last_check_ms == old(self).last_check_ms,
            !old(self).too_soon(now_ms) ==> final(self).last_check_ms == now_ms,
            !old(self).too_soon(now_ms) && cursor is None ==> r is None && final(self).state()
                == old(self).state(),
            !old(self).too_soon(now_ms) && cursor is Some ==> (final(self).state(), r) == observe(
                old(self).state(),
                display_at(old(self).displays_info@, (cursor->0).0 as int, (cursor->0).1 as int),
            ),
    {
        if now_ms < self.last_check_ms || now_ms - self.last_check_ms < self.check_interval_ms {
            return None;
        }
        self.last_check_ms = now_ms;
        let (cursor_x, cursor_y) = match cursor {
            Some(position) => position,
            None => {
                return None;
            },
        };
        let cursor_display = get_display_at_cursor(&self.displays_info, cursor_x, cursor_y);
        if cursor_display == self.current_display {
            self.pending_display = None;
            self.pending_count = 0;
            return None;
        }
        if self.pending_display == Some(cursor_display) {
            self.pending_count = self.pending_count + 1;
            if self.pending_count >= 2 {
                self.current_display = cursor_display;
                self.pending_display = None;
                self.pending_count = 0;
                return Some(cursor_display);
            }
        } else {
            self.pending_display = Some(cursor_display);
            self.pending_count = 1;
        }
        None
    }
}

/// What is to be captured: a display out of the enumerated ones, at a frame
/// rate, following the cursor where there is more than one display.
pub struct ScreenCapture {
    pub display_index: usize,
    pub fps: u32,
    pub multi_monitor: bool,
    pub monitor_switch_interval_ms: u64,
    pub displays: Vec<DisplayInfo>,
}

/// Width assumed for a display whose size is not known.
pub const FALLBACK_WIDTH: usize = 1920;

/// Height assumed for a display whose size is not known.
pub const FALLBACK_HEIGHT: usize = 1080;

impl ScreenCapture {
    /// The text that rejects a display index beyond the enumerated ones.
    pub open spec fn not_found_text(display_index: usize, count: usize) -> Seq<char> {
        "Display "@ + decimal(display_index as nat) + " not found (only "@ + decimal(count as nat)
            + " displays available)"@
    }

    /// Sets up capture of display `display_index` out of `displays`.  An
    /// empty list and an index beyond the list are capture errors.  With
    /// more than one display, capture follows the cursor.
    pub fn new(
        display_index: usize,
        fps: u32,
        monitor_switch_interval_ms: u64,
        displays: Vec<DisplayInfo>,
    ) -> (r: Result<ScreenCapture, ScreenRecError>)
        ensures
            displays@.len() == 0 ==> (r matches Err(ScreenRecError::CaptureError(m)) && m@
                == "No displays found"@),
            displays@.len() > 0 && display_index >= displays@.len() ==> (r matches Err(
                ScreenRecError::CaptureError(m),
            ) && m@ == Self::not_found_text(display_index, displays@.len() as usize)),
            display_index < displays@.len() ==> (r matches Ok(c) && c.display_index
                == display_index && c.fps == fps && c.multi_monitor == (displays@.len() > 1)
                && c.monitor_switch_interval_ms == monitor_switch_interval_ms && c.displays@
                == displays@),
    {
        if displays.len() == 0 {
            return Err(ScreenRecError::CaptureError(String::from_str("No displays found")));
        }
        if display_index >= displays.len() {
            let mut m = String::from_str("Display ");
            push_decimal(&mut m, display_index as u64);
            m.append(" not found (only ");
            push_decimal(&mut m, displays.len() as u64);
            m.append(" displays available)");
            return Err(ScreenRecError::CaptureError(m));
        }
        let multi_monitor = displays.len() > 1;
        Ok(
            ScreenCapture {
                display_index,
                fps,
                multi_monitor,
                monitor_switch_interval_ms,
                displays,
            },
        )
    }

    /// Width of the captured display; 1920 if the display is not among the
    /// enumerated ones.
    pub fn width(&self) -> (w: usize)
        ensures
            w == if self.display_index < self.displays@.len() {
                self.displays@[self.display_index as int].width
            } else {
                FALLBACK_WIDTH
            },
    {
        if self.display_index < self.displays.len() {
            self.displays[self.display_index].width
        } else {
            FALLBACK_WIDTH
        }
    }

    /// Height of the captured display; 1080 if the display is not among
    /// the enumerated ones.
    pub fn height(&self) -> (h: usize)
        ensures
            h == if self.display_index < self.displays@.len() {
                self.displays@[self.display_index as int].height
            } else {
                FALLBACK_HEIGHT
            },
    {
        if self.display_index < self.displays.len() {
            self.displays[self.display_index].height
        } else {
            FALLBACK_HEIGHT
        }
    }

    /// The frame rate asked for.
    pub fn fps(&self) -> (r: u32)
        ensures
            r == self.fps,
    {
        self.fps
    }

    /// Whether capture follows the cursor across displays.
    pub fn is_multi_monitor(&self) -> (r: bool)
        ensures
            r == self.multi_monitor,
    {
        self.multi_monitor
    }

    /// The largest width and the largest height among all displays, so that
    /// an encoder of that size fits every source.
    pub fn get_max_dimensions(&self) -> (r: (usize, usize))
        ensures
            r == max_dimensions(self.displays@),
    {
        largest_dimensions(&self.displays)
    }
}

/// What the capture loop does at the top of an iteration.
pub enum LoopDecision {
    /// Leave the loop: capture is complete.
    Stop,
    /// Pull one frame from the capturer of this display.
    CaptureFrom(usize),
    /// Leave the loop with an error.
    Fail(ScreenRecError),
}

/// What the platform capturer answered.
pub enum CaptureOutcome {
    /// A frame of BGRA bytes.
    Frame(Vec<u8>),
    /// No frame is ready yet.
    WouldBlock,
    /// Any other failure, by its description.
    Failed(String),
}

/// What the capture loop does with the capturer's answer.
pub enum CaptureAction {
    /// Hand this frame to the encoder side.
    Send(Frame),
    /// Wait this many milliseconds and capture again, without pacing.
    RetryAfterMs(u64),
    /// Leave the loop with an error.
    Fail(ScreenRecError),
}

/// The time between two frames at a frame rate, in microseconds.
pub open spec fn frame_period_us(fps: u32) -> int {
    1_000_000int / (fps as int)
}

/// How long to sleep at the end of an iteration that took `elapsed_us`, so
/// that frames come at the frame rate; 0 where the iteration already took
/// a frame period or more.
pub fn pacing_sleep_us(fps: u32, elapsed_us: u64) -> (r: u64)
    requires
        fps > 0,
    ensures
        r == if elapsed_us < frame_period_us(fps) {
            frame_period_us(fps) - elapsed_us
        } else {
            0
        },
{
    let period: u64 = 1_000_000 / (fps as u64);
    if elapsed_us < period {
        period - elapsed_us
    } else {
        0
    }
}

/// A copy of a display list.
pub fn copy_displays(displays: &Vec<DisplayInfo>) -> (r: Vec<DisplayInfo>)
    ensures
        r@ == displays@,
{
    let mut r: Vec<DisplayInfo> = Vec::new();
    let mut i: usize = 0;
    while i < displays.len()
        invariant
            i <= displays.len(),
            r@ == displays@.take(i as int),
        decreases displays.len() - i,
    {
        r.push(displays[i]);
        assert(r@ =~= displays@.take(i + 1));
        i += 1;
    }
    assert(r@ =~= displays@);
    r
}

/// The text that reports a display without a capturer.
pub open spec fn no_capturer_text(display: usize) -> Seq<char> {
    "Capturer for display "@ + decimal(display as nat) + " not found"@
}

fn no_capturer(display: usize) -> (r: ScreenRecError)
    ensures
        r matches ScreenRecError::CaptureError(m) && m@ == no_capturer_text(display),
{
    let mut m = String::from_str("Capturer for display ");
    push_decimal(&mut m, display as u64);
    m.append(" not found");
    ScreenRecError::CaptureError(m)
}

/// The state of the capture loop between its steps.
pub struct CaptureLoop {
    pub fps: u32,
    /// Stop after this many frames; `None` runs until told to stop.
    pub target_frames: Option<u64>,
    /// Frames handed on so far.
    pub frame_count: u64,
    /// Monotonic time of the first captured frame, in microseconds.
    pub origin_us: Option<u64>,
    /// The display that is being captured.
    pub display_index: usize,
    pub width: usize,
    pub height: usize,
    /// The switch policy; present where capture follows the cursor.
    pub detector: Option<MonitorSwitchDetector>,
    pub displays: Vec<DisplayInfo>,
}

impl CaptureLoop {
    /// The active display is an enumerated one with the cached size, and a
    /// switch policy, where present, is well formed, captures the active
    /// display and knows the same displays.
    pub open spec fn wf(self) -> bool {
        &&& self.fps > 0
        &&& self.display_index < self.displays@.len()
        &&& self.width == self.displays@[self.display_index as int].width
        &&& self.height == self.displays@[self.display_index as int].height
        &&& self.detector matches Some(d) ==> d.wf() && d.current_display == self.display_index
            && d.displays_info@ == self.displays@
    }

    /// The display on which capture starts: with several displays the one
    /// under the cursor, if the cursor position is known; else the one
    /// that was asked for.
    pub open spec fn initial_display(capture: ScreenCapture, cursor: Option<(i32, i32)>) -> usize {
        if capture.multi_monitor && cursor is Some {
            display_at(capture.displays@, (cursor->0).0 as int, (cursor->0).1 as int)
        } else {
            capture.display_index
        }
    }

    /// Sets the loop up at time `now_ms`.  Fails where the display to
    /// start on is not among the enumerated ones.
    pub fn new(
        capture: ScreenCapture,
        target_frames: Option<u64>,
        cursor: Option<(i32, i32)>,
        now_ms: u64,
    ) -> (r: Result<CaptureLoop, ScreenRecError>)
        requires
            capture.fps > 0,
        ensures
            ({
                let first = Self::initial_display(capture, cursor);
                if first < capture.displays@.len() {
                    r matches Ok(l) && l.wf() && l.fps == capture.fps && l.target_frames
                        == target_frames && l.frame_count == 0 && l.origin_us is None
                        && l.display_index == first && l.displays@ == capture.displays@
                        && (l.detector is Some) == capture.multi_monitor && (l.detector matches Some(
                        d,
                    ) ==> d.check_interval_ms == capture.monitor_switch_interval_ms
                        && d.last_check_ms == now_ms && d.pending_display is None)
                } else if capture.multi_monitor {
                    r matches Err(ScreenRecError::CaptureError(m)) && m@ == no_capturer_text(first)
                } else {
                    r matches Err(ScreenRecError::CaptureError(m)) && m@
                        == ScreenCapture::not_found_text(first, capture.displays@.len() as usize)
                }
            }),
    {
        let first: usize = if capture.multi_monitor {
            match cursor {
                Some((x, y)) => get_display_at_cursor(&capture.displays, x, y),
                None => capture.display_index,
            }
        } else {
            capture.display_index
        };
        if first >= capture.displays.len() {
            if capture.multi_monitor {
                return Err(no_capturer(first));
            }
            let mut m = String::from_str("Display ");
            push_decimal(&mut m, first as u64);
            m.append(" not found (only ");
            push_decimal(&mut m, capture.displays.len() as u64);
            m.append(" displays available)");
            return Err(ScreenRecError::CaptureError(m));
        }
        let width = capture.displays[first].width;
        let height = capture.displays[first].height;
        let detector = if capture.multi_monitor {
            Some(
                MonitorSwitchDetector::new(
                    capture.monitor_switch_interval_ms,
                    first,
                    copy_displays(&capture.displays),
                    now_ms,
                ),
            )
        } else {
            None
        };
        Ok(
            CaptureLoop {
                fps: capture.fps,
                target_frames,
                frame_count: 0,
                origin_us: None,
                display_index: first,
                width,
                height,
                detector,
                displays: capture.displays,
            },
        )
    }

    /// The frame budget is used up.
    pub open spec fn target_reached(self) -> bool {
        self.target_frames matches Some(t) && self.frame_count >= t
    }

    /// The top of an iteration at time `now_ms`.  A stop request or a
    /// used-up frame budget ends the loop and changes nothing.  Otherwise
    /// the switch policy, where present, is asked; a switch to an
    /// enumerated display makes it the active one.  The next frame is
    /// pulled from the active display.
    pub fn begin_iteration(
        &mut self,
        stop_requested: bool,
        now_ms: u64,
        cursor: Option<(i32, i32)>,
    ) -> (r: LoopDecision)
        requires
            old(self).wf(),
        ensures
            final(self).wf(),
            final(self).fps == old(self).fps,
            final(self).target_frames == old(self).target_frames,
            final(self).frame_count == old(self).frame_count,
            final(self).origin_us == old(self).origin_us,
            final(self).displays@ == old(self).displays@,
            (final(self).detector is Some) == (old(self).detector is Some),
            stop_requested || old(self).target_reached() ==> r is Stop && final(self).display_index
                == old(self).display_index && final(self).detector == old(self).detector,
            !stop_requested && !old(self).target_reached() ==> r == LoopDecision::CaptureFrom(
                final(self).display_index,
            ),
            !stop_requested && !old(self).target_reached() && old(self).detector is None
                ==> final(self).display_index == old(self).display_index,
            !stop_requested && !old(self).target_reached() && old(self).detector is Some ==> ({
                let before = old(self).detector->0;
                let after = final(self).detector->0;
                &&& after.check_interval_ms == before.check_interval_ms
                &&& before.too_soon(now_ms) || cursor is None ==> after.state() == before.state()
                    && final(self).display_index == old(self).display_index
                &&& !before.too_soon(now_ms) ==> after.last_check_ms == now_ms
                &&& !before.too_soon(now_ms) && cursor is Some ==> ({
                    let seen = display_at(
                        old(self).displays@,
                        (cursor->0).0 as int,
                        (cursor->0).1 as int,
                    );
                    let step = observe(before.state(), seen);
                    match step.1 {
                        Some(to) => if to < old(self).displays@.len() {
                            after.state() == step.0 && final(self).display_index == to
                        } else {
                            after.state() == SwitchState {
                                current: old(self).display_index,
                                pending: None,
                                count: 0,
                            } && final(self).display_index == old(self).display_index
                        },
                        None => after.state() == step.0 && final(self).display_index == old(self).display_index,
                    }
                })
            }),
    {
        if stop_requested {
            return LoopDecision::Stop;
        }
        if let Some(target) = self.target_frames {
            if self.frame_count >= target {
                return LoopDecision::Stop;
            }
        }
        let active = self.display_index;
        let count = self.displays.len();
        let mut switched: Option<usize> = None;
        if let Some(detector) = &mut self.detector {
            if let Some(to) = detector.check_for_switch(now_ms, cursor) {
                if to < count {
                    switched = Some(to);
                } else {
                    detector.current_display = active;
                }
            }
        }
        if let Some(to) = switched {
            self.display_index = to;
            self.width = self.displays[to].width;
            self.height = self.displays[to].height;
        }
        LoopDecision::CaptureFrom(self.display_index)
    }

    /// The text that reports a failed capture.
    pub open spec fn capture_failed_text(reason: Seq<char>) -> Seq<char> {
        "Failed to capture frame: "@ + reason
    }

    /// The capturer's answer at monotonic time `now_us` and wall-clock time
    /// `captured_at_ms`.  A frame is converted to RGB, gets the pointer
    /// glyph at the cursor position if one is known, and is stamped with
    /// the time since the first frame.  A capturer that would block is
    /// asked again after a millisecond.  Any other failure ends the loop.
    pub fn on_capture(
        &mut self,
        outcome: CaptureOutcome,
        now_us: u64,
        captured_at_ms: i64,
        cursor: Option<(i32, i32)>,
    ) -> (r: CaptureAction)
        ensures
            final(self).fps == old(self).fps,
            final(self).target_frames == old(self).target_frames,
            final(self).frame_count == old(self).frame_count,
            final(self).display_index == old(self).display_index,
            final(self).width == old(self).width,
            final(self).height == old(self).height,
            final(self).detector == old(self).detector,
            final(self).displays == old(self).displays,
            outcome is WouldBlock ==> r == CaptureAction::RetryAfterMs(1) && final(self).origin_us
                == old(self).origin_us,
            outcome matches CaptureOutcome::Failed(reason) ==> (r matches CaptureAction::Fail(
                ScreenRecError::CaptureError(m),
            ) && m@ == Self::capture_failed_text(reason@)) && final(self).origin_us == old(self).origin_us,
            outcome matches CaptureOutcome::Frame(bgra) ==> ({
                let origin = match old(self).origin_us {
                    Some(o) => o,
                    None => now_us,
                };
                &&& final(self).origin_us == Some(origin)
                &&& r matches CaptureAction::Send(frame)
                &&& frame.width == old(self).width
                &&& frame.height == old(self).height
                &&& frame.display_index == old(self).display_index
                &&& frame.captured_at_ms == captured_at_ms
                &&& frame.timestamp_us == if now_us >= origin {
                    (now_us - origin) as u64
                } else {
                    0u64
                }
                &&& match cursor {
                    Some((cx, cy)) => cursor_drawn(
                        rgb_of_bgra(bgra@),
                        frame.data@,
                        old(self).width as int,
                        old(self).height as int,
                        cx as int,
                        cy as int,
                    ),
                    None => frame.data@ == rgb_of_bgra(bgra@),
                }
            }),
    {
        match outcome {
            CaptureOutcome::WouldBlock => CaptureAction::RetryAfterMs(1),
            CaptureOutcome::Failed(reason) => {
                let mut m = String::from_str("Failed to capture frame: ");
                m.append(reason.as_str());
                CaptureAction::Fail(ScreenRecError::CaptureError(m))
            },
            CaptureOutcome::Frame(bgra) => {
                let mut data = bgra_to_rgb(bgra.as_slice());
                if let Some((cx, cy)) = cursor {
                    draw_cursor(data.as_mut_slice(), self.width, self.height, cx, cy);
                }
                let origin: u64 = match self.origin_us {
                    Some(o) => o,
                    None => now_us,
                };
                self.origin_us = Some(origin);
                let timestamp_us: u64 = if now_us >= origin {
                    now_us - origin
                } else {
                    0
                };
                CaptureAction::Send(
                    Frame {
                        data,
                        width: self.width,
                        height: self.height,
                        timestamp_us,
                        captured_at_ms,
                        display_index: self.display_index,
                    },
                )
            },
        }
    }

    /// The outcome of handing a frame on.  A delivered frame is counted and
    /// the loop goes on to its pacing sleep; where the receiver is gone the
    /// loop ends and nothing is counted.  Returns whether the loop goes on.
    pub fn on_sent(&mut self, delivered: bool) -> (r: bool)
        requires
            old(self).frame_count < u64::MAX,
        ensures
            r == delivered,
            final(self).frame_count == if delivered {
                (old(self).frame_count + 1) as u64
            } else {
                old(self).frame_count
            },
            final(self).fps == old(self).fps,
            final(self).target_frames == old(self).target_frames,
            final(self).origin_us == old(self).origin_us,
            final(self).display_index == old(self).display_index,
            final(self).width == old(self).width,
            final(self).height == old(self).height,
            final(self).detector == old(self).detector,
            final(self).displays == old(self).displays,
    {
        if delivered {
            self.frame_count = self.frame_count + 1;
        }
        delivered
    }
}

} // verus!
