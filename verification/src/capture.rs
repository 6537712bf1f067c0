//! The decisions of the selection-capture pipeline: which mouseups start a
//! capture, which captured text is shown, and how the clipboard method
//! reads a selection. The listener thread, the window queries and the
//! clipboard itself live with the caller, which hands the results here.
use vstd::prelude::*;
use vstd::string::*;
use crate::error::AppError;
use crate::config::{AppConfig, CaptureMethod, capture_plan_of};
use crate::selection::{SelectionOutcome, acceptable, is_acceptable_selection};
use crate::state::{AppState, CaptureEvent, CaptureState};
use crate::text::{trim_str, trimmed};
use crate::window::{Position, Rect, rect_contains, signed_len, signed_len_of};

verus! {

/// The shortest time, in nanoseconds (200 ms), between two mouseups that
/// start a capture.
pub const THROTTLE_NS: u64 = 200_000_000;

/// How far, in pixels, the floater sits right of and below the cursor.
pub const FLOATER_OFFSET: i32 = 12;

/// The time elapsed from `earlier` to `now`, in nanoseconds; zero when
/// `now` is not later (as `Instant::duration_since` saturates).
pub open spec fn elapsed_ns(earlier: u64, now: u64) -> int {
    if now >= earlier {
        now - earlier
    } else {
        0
    }
}

/// Whether a left-button release at `now` starts a capture: capture is
/// enabled, and no capture started less than `THROTTLE_NS` before.
pub open spec fn release_starts_capture(capture_enabled: bool, last_emit: Option<u64>, now: u64) -> bool {
    &&& capture_enabled
    &&& match last_emit {
        Some(prev) => elapsed_ns(prev, now) >= THROTTLE_NS,
        None => true,
    }
}

/// The time, in nanoseconds on a monotonic clock, at which the last
/// capture was started.
pub struct Throttle {
    pub last_emit: Option<u64>,
}

impl Throttle {
    /// No capture started yet.
    pub fn new() -> (t: Self)
        ensures
            t.last_emit is None,
    {
        Throttle { last_emit: None }
    }

    /// Handles a left-button release at `now`: returns whether it starts a
    /// capture (see `release_starts_capture`), and records `now` when it does.
    pub fn on_left_release(&mut self, capture_enabled: bool, now: u64) -> (emit: bool)
        ensures
            emit == release_starts_capture(capture_enabled, old(self).last_emit, now),
            final(self).last_emit == (if emit {
                Some(now)
            } else {
                old(self).last_emit
            }),
    {
        if !capture_enabled {
            return false;
        }
        if let Some(prev) = self.last_emit {
            let elapsed: u64 = if now >= prev {
                now - prev
            } else {
                0
            };
            if elapsed < THROTTLE_NS {
                return false;
            }
        }
        self.last_emit = Some(now);
        true
    }
}

/// Two captures started by the throttle are at least `THROTTLE_NS` apart.
pub proof fn lemma_throttle_spacing(enabled: bool, first: u64, now: u64)
    requires
        release_starts_capture(enabled, Some(first), now),
    ensures
        now >= first + THROTTLE_NS,
{
}

/// The cursor position a burst of mouseups is captured at: the latest one.
pub fn latest_position(first: (i32, i32), later: &Vec<(i32, i32)>) -> (pos: (i32, i32))
    ensures
        pos == (if later@.len() == 0 {
            first
        } else {
            later@.last()
        }),
{
    if later.len() == 0 {
        first
    } else {
        later[later.len() - 1]
    }
}

/// Whether the pipeline takes a new capture in this state: only `Idle`
/// and `Floater` do; `Disabled` gates everything off and `Popup` owns the
/// foreground.
pub open spec fn takes_captures(state: CaptureState) -> bool {
    state == CaptureState::Idle || state == CaptureState::Floater
}

/// Whether the worker goes on to read the selection (see `takes_captures`).
pub fn worker_should_capture(state: CaptureState) -> (b: bool)
    ensures
        b == takes_captures(state),
{
    matches!(state, CaptureState::Idle | CaptureState::Floater)
}

/// The sums the click test forms for `r` stay within `i32`: the right
/// edge where the click is right of the left edge, the bottom edge where
/// it is also inside horizontally and below the top edge.
pub open spec fn click_arith_ok(r: Rect, p: Position) -> bool {
    &&& (p.x >= r.position.x ==> i32::MIN <= r.position.x + signed_len(r.size.width) <= i32::MAX)
    &&& (p.x >= r.position.x && p.x < r.position.x + signed_len(r.size.width) && p.y >= r.position.y
        ==> i32::MIN <= r.position.y + signed_len(r.size.height) <= i32::MAX)
}

/// The click-test sums stay within `i32` for every window examined: those
/// up to and including the first that holds `p`.
pub open spec fn clicks_arith_ok(windows: Seq<Rect>, p: Position) -> bool {
    forall|i: int|
        #![trigger windows[i]]
        0 <= i < windows.len() && (forall|j: int| 0 <= j < i ==> !rect_contains(#[trigger] windows[j], p))
            ==> click_arith_ok(windows[i], p)
}

fn click_inside(r: &Rect, p: Position) -> (b: bool)
    requires
        click_arith_ok(*r, p),
    ensures
        b == rect_contains(*r, p),
{
    p.x >= r.position.x && (p.x as i64) < r.position.x as i64 + signed_len_of(r.size.width) && p.y
        >= r.position.y && (p.y as i64) < r.position.y as i64 + signed_len_of(r.size.height)
}

/// Whether a click at `p` falls on one of our own visible windows, given
/// their rectangles: such clicks are not selections.
pub fn click_on_own_window(p: Position, windows: &Vec<Rect>) -> (b: bool)
    requires
        clicks_arith_ok(windows@, p),
    ensures
        b == exists|i: int| 0 <= i < windows@.len() && rect_contains(#[trigger] windows@[i], p),
{
    let n = windows.len();
    for i in 0..n
        invariant
            n == windows.len(),
            clicks_arith_ok(windows@, p),
            forall|k: int| 0 <= k < i ==> !rect_contains(#[trigger] windows@[k], p),
    {
        assert(click_arith_ok(windows@[i as int], p));
        if click_inside(&windows[i], p) {
            return true;
        }
    }
    false
}

/// Where the floater is anchored for a selection captured at `pos`.
pub fn floater_anchor(pos: (i32, i32)) -> (p: Position)
    requires
        pos.0 + FLOATER_OFFSET <= i32::MAX,
        pos.1 + FLOATER_OFFSET <= i32::MAX,
    ensures
        p.x == pos.0 + FLOATER_OFFSET,
        p.y == pos.1 + FLOATER_OFFSET,
{
    Position { x: pos.0 + FLOATER_OFFSET, y: pos.1 + FLOATER_OFFSET }
}

/// Handles the text a capture read at `pos`: unless capture was switched
/// off meanwhile (`Disabled` gates everything off), an acceptable trimmed
/// text records the cursor, moves the pipeline towards `Floater` (a no-op
/// where the popup opened meanwhile) and is returned to show; otherwise
/// nothing changes.
pub fn accept_capture(state: &mut AppState, text: &str, pos: (i32, i32)) -> (shown: Option<String>)
    ensures
        shown is Some <==> old(state)@.capture_state != CaptureState::Disabled && acceptable(trimmed(text@)),
        shown matches Some(t) ==> t@ == trimmed(text@),
        shown is Some ==> final(state)@.last_cursor == Some(pos) && final(state)@.config
            == old(state)@.config && final(state)@.capture_state == crate::state::next_capture_state(
            old(state)@.capture_state,
            CaptureEvent::EnterFloater,
        ),
        shown is None ==> final(state)@ == old(state)@,
{
    if !state.capture_enabled() {
        return None;
    }
    let t = trim_str(text);
    if is_acceptable_selection(t) {
        state.set_last_cursor(pos);
        state.enter_floater();
        Some(t.to_owned())
    } else {
        None
    }
}

/// The selection a run of capture methods yields from the outcomes, in
/// order: the first `Text` or `NoSelection` decides; `Unsupported` defers
/// to the next method; when every method is unsupported there is none.
pub open spec fn acquired(outcomes: Seq<SelectionOutcome>) -> Option<Seq<char>>
    decreases outcomes.len(),
{
    if outcomes.len() == 0 {
        None
    } else {
        match outcomes[0] {
            SelectionOutcome::Text(t) => Some(t@),
            SelectionOutcome::NoSelection => None,
            SelectionOutcome::Unsupported => acquired(outcomes.drop_first()),
        }
    }
}

/// One run of the capture methods over a selection: the caller asks which
/// method to run next, runs it, and records its outcome, until no method
/// is left to run.
pub struct CaptureRun {
    plan: Vec<CaptureMethod>,
    outcomes: Ghost<Seq<SelectionOutcome>>,
    tried: usize,
    result: Option<Option<String>>,
}

impl CaptureRun {
    /// The methods of the run, in order.
    pub closed spec fn plan(&self) -> Seq<CaptureMethod> {
        self.plan@
    }

    /// The outcomes recorded so far, in order.
    pub closed spec fn outcomes(&self) -> Seq<SelectionOutcome> {
        self.outcomes@
    }

    /// Whether an outcome recorded so far ended the run.
    pub open spec fn decided(&self) -> bool {
        exists|i: int| 0 <= i < self.outcomes().len() && !(#[trigger] self.outcomes()[i] is Unsupported)
    }

    /// Whether the run has nothing left to do.
    pub open spec fn finished(&self) -> bool {
        self.decided() || self.outcomes().len() >= self.plan().len()
    }

    /// The run's consistency: no more outcomes than methods, and nothing
    /// recorded after the outcome that ended the run.
    pub closed spec fn wf(&self) -> bool {
        &&& self.outcomes@.len() <= self.plan@.len()
        &&& self.tried == self.outcomes@.len()
        &&& forall|i: int| 0 <= i < self.outcomes@.len() - 1 ==> (#[trigger] self.outcomes@[i]) is Unsupported
        &&& (self.result is Some <==> self.decided())
        &&& (self.result matches Some(r) ==> opt_view(r) == acquired(self.outcomes@))
    }

    /// A run over the methods that `cfg` enables, in its order.
    pub fn new(cfg: &AppConfig) -> (run: Self)
        ensures
            run.wf(),
            run.plan() == capture_plan_of(cfg@),
            run.outcomes() == Seq::<SelectionOutcome>::empty(),
    {
        CaptureRun { plan: cfg.capture_plan(), outcomes: Ghost(Seq::empty()), tried: 0, result: None }
    }

    /// The method to run next, or `None` when the run is finished.
    pub fn next_method(&self) -> (m: Option<CaptureMethod>)
        requires
            self.wf(),
        ensures
            m is None <==> self.finished(),
            m matches Some(method) ==> method == self.plan()[self.outcomes().len() as int],
    {
        if self.result.is_some() {
            return None;
        }
        if self.tried < self.plan.len() {
            Some(self.plan[self.tried])
        } else {
            None
        }
    }

    /// Records the outcome of the method `next_method` named.
    pub fn record(&mut self, outcome: SelectionOutcome)
        requires
            old(self).wf(),
            !old(self).finished(),
        ensures
            final(self).wf(),
            final(self).plan() == old(self).plan(),
            final(self).outcomes() == old(self).outcomes().push(outcome),
    {
        let ghost before = self.outcomes@;
        let n = self.plan.len();
        proof {
            assert forall|i: int| 0 <= i < before.len() implies (#[trigger] before[i]) is Unsupported by {
                if !(before[i] is Unsupported) {
                    assert(old(self).decided());
                }
            }
            lemma_acquired_after_unsupported(before, outcome);
            assert(self.tried < n);
        }
        self.outcomes = Ghost(self.outcomes@.push(outcome));
        self.tried = self.tried + 1;
        match outcome {
            SelectionOutcome::Text(t) => {
                self.result = Some(Some(t));
            },
            SelectionOutcome::NoSelection => {
                self.result = Some(None);
            },
            SelectionOutcome::Unsupported => {},
        }
        proof {
            let after = self.outcomes@;
            assert(after[after.len() - 1] == outcome);
            if !(outcome is Unsupported) {
                assert(self.decided());
            } else {
                assert forall|i: int| 0 <= i < after.len() implies (#[trigger] after[i]) is Unsupported by {
                    if i < before.len() {
                        assert(after[i] == before[i]);
                    }
                }
            }
        }
    }

    /// The selection the run found (see `acquired`).
    pub fn selection(self) -> (r: Option<String>)
        requires
            self.wf(),
        ensures
            opt_view(r) == acquired(self.outcomes()),
    {
        proof {
            if self.result is None {
                assert forall|i: int| 0 <= i < self.outcomes@.len() implies (#[trigger] self.outcomes@[i]) is Unsupported by {
                    if !(self.outcomes@[i] is Unsupported) {
                        assert(self.decided());
                    }
                }
                lemma_acquired_after_unsupported(self.outcomes@, SelectionOutcome::Unsupported);
            }
        }
        match self.result {
            Some(r) => r,
            None => None,
        }
    }
}

/// Methods that could not read a selection do not affect the result:
/// after any number of `Unsupported` outcomes the next outcome decides,
/// and with nothing but `Unsupported` there is no selection.
pub proof fn lemma_acquired_after_unsupported(before: Seq<SelectionOutcome>, last: SelectionOutcome)
    requires
        forall|i: int| 0 <= i < before.len() ==> (#[trigger] before[i]) is Unsupported,
    ensures
        acquired(before.push(last)) == acquired(seq![last]),
        acquired(before) == None::<Seq<char>>,
    decreases before.len(),
{
    if before.len() > 0 {
        assert(before.push(last).drop_first() =~= before.drop_first().push(last));
        assert(before.push(last)[0] == before[0]);
        assert forall|i: int| 0 <= i < before.drop_first().len() implies (#[trigger] before.drop_first()[i]) is Unsupported by {
            assert(before[i + 1] is Unsupported);
        }
        lemma_acquired_after_unsupported(before.drop_first(), last);
    } else {
        assert(before.push(last) =~= seq![last]);
    }
}

/// The outcome of the clipboard method from the result of one copy cycle:
/// text found, nothing selected, or, on any error, `Unsupported`.
pub fn try_clipboard(cycle: Result<Option<String>, AppError>) -> (o: SelectionOutcome)
    ensures
        cycle matches Ok(Some(t)) ==> (o matches SelectionOutcome::Text(s) && s == t),
        cycle matches Ok(None) ==> o is NoSelection,
        cycle is Err ==> o is Unsupported,
{
    match cycle {
        Ok(Some(t)) => SelectionOutcome::Text(t),
        Ok(None) => SelectionOutcome::NoSelection,
        Err(_) => SelectionOutcome::Unsupported,
    }
}

/// What a copy cycle captured, from the clipboard text read after the
/// simulated copy and the text that was there before: nothing when the
/// read failed, came back empty, or equals the earlier text.
pub open spec fn clipboard_candidate_of(new_text: Option<Seq<char>>, backup: Option<Seq<char>>) -> Option<Seq<char>> {
    match new_text {
        None => None,
        Some(t) => if t.len() == 0 {
            None
        } else if backup == Some(t) {
            None
        } else {
            Some(t)
        },
    }
}

/// What a copy cycle captured, case by case: a non-empty clipboard text
/// that differs from what was there before is the selection; a failed
/// read, an empty text or the earlier text unchanged means nothing was
/// selected.
pub proof fn lemma_clipboard_candidate_cases(new_text: Option<Seq<char>>, backup: Option<Seq<char>>)
    ensures
        new_text matches Some(t) ==> (t.len() > 0 && backup != Some(t) ==> clipboard_candidate_of(new_text, backup)
            == Some(t)),
        new_text is None ==> clipboard_candidate_of(new_text, backup) is None,
        new_text matches Some(t) ==> (t.len() == 0 ==> clipboard_candidate_of(new_text, backup) is None),
        new_text is Some && backup == new_text ==> clipboard_candidate_of(new_text, backup) is None,
{
}

/// The plain view of an optional string.
pub open spec fn opt_view(s: Option<String>) -> Option<Seq<char>> {
    match s {
        Some(t) => Some(t@),
        None => None,
    }
}

/// The result of a copy cycle: the error of the simulated copy, if it
/// failed; otherwise the captured text (see `clipboard_candidate_of`).
pub fn clipboard_result(copy: Result<(), AppError>, new_text: Option<String>, backup: Option<String>) -> (r: Result<Option<String>, AppError>)
    ensures
        copy matches Err(e) ==> r == Err::<Option<String>, AppError>(e),
        copy is Ok ==> (r matches Ok(c) && opt_view(c) == clipboard_candidate_of(opt_view(new_text), opt_view(backup))),
{
    if let Err(e) = copy {
        return Err(e);
    }
    let candidate = match new_text {
        None => None,
        Some(t) => {
            if t.as_str().is_empty() {
                None
            } else {
                match &backup {
                    Some(prev) => if t == *prev {
                        None
                    } else {
                        Some(t)
                    },
                    None => Some(t),
                }
            }
        },
    };
    Ok(candidate)
}

/// The message of a caught panic: the payload when it is a string, else a
/// placeholder. The caller passes the payload as the string types it may be.
pub fn panic_message(static_str: Option<&str>, owned: Option<&String>) -> (m: String)
    ensures
        static_str matches Some(s) ==> m@ == s@,
        static_str is None && owned is Some ==> m@ == owned.unwrap()@,
        static_str is None && owned is None ==> m@ == "<unknown panic payload>"@,
{
    if let Some(s) = static_str {
        String::from_str(s)
    } else if let Some(s) = owned {
        s.clone()
    } else {
        String::from_str("<unknown panic payload>")
    }
}

} // verus!
