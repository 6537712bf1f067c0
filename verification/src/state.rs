//! The shared application state and the lifecycle of the capture pipeline.
use vstd::prelude::*;
use crate::config::{AppConfig, AppConfigView};

verus! {

/// Lifecycle of the capture pipeline. Mouseups only trigger capture when
/// the machine is in `Idle` or `Floater`. `Disabled` gates everything off;
/// `Popup` means the user is interacting with the lookup popup, so new
/// captures must not be started until the popup hides.
#[derive(Debug, Clone, Copy, PartialEq, Eq, Structural, Default)]
pub enum CaptureState {
    #[default]
    Disabled,
    Idle,
    Floater,
    Popup,
}

/// What moves the capture pipeline from one state to the next.
#[derive(Debug, Clone, Copy, PartialEq, Eq, Structural)]
pub enum CaptureEvent {
    /// The hotkey or the tray menu flipped the master switch.
    Toggle,
    /// A selection was captured and the floater is shown.
    EnterFloater,
    /// A lookup was requested from the floater.
    EnterPopup,
    /// The floater hid itself.
    FloaterHidden,
    /// The popup hid itself.
    PopupHidden,
}

/// The state the pipeline is in after `event` happens in state `s`.
pub open spec fn next_capture_state(s: CaptureState, event: CaptureEvent) -> CaptureState {
    match event {
        CaptureEvent::Toggle => if s == CaptureState::Disabled {
            CaptureState::Idle
        } else {
            CaptureState::Disabled
        },
        CaptureEvent::EnterFloater => if s == CaptureState::Idle || s == CaptureState::Floater {
            CaptureState::Floater
        } else {
            s
        },
        CaptureEvent::EnterPopup => if s == CaptureState::Floater {
            CaptureState::Popup
        } else {
            s
        },
        CaptureEvent::FloaterHidden => if s == CaptureState::Floater {
            CaptureState::Idle
        } else {
            s
        },
        CaptureEvent::PopupHidden => if s == CaptureState::Popup {
            CaptureState::Idle
        } else {
            s
        },
    }
}

/// Shared application state.
pub struct AppState {
    config: AppConfig,
    capture_state: CaptureState,
    last_cursor: Option<(i32, i32)>,
}

/// The application state as plain values.
pub struct AppStateView {
    pub config: AppConfigView,
    pub capture_state: CaptureState,
    pub last_cursor: Option<(i32, i32)>,
}

impl View for AppState {
    type V = AppStateView;

    closed spec fn view(&self) -> AppStateView {
        AppStateView {
            config: self.config@,
            capture_state: self.capture_state,
            last_cursor: self.last_cursor,
        }
    }
}

/// `s` after `event`, with the configuration and the cursor unchanged.
pub open spec fn after_event(s: AppStateView, event: CaptureEvent) -> AppStateView {
    AppStateView {
        config: s.config,
        capture_state: next_capture_state(s.capture_state, event),
        last_cursor: s.last_cursor,
    }
}

impl AppState {
    /// A fresh state: capture disabled, no cursor recorded.
    pub fn new(config: AppConfig) -> (s: Self)
        ensures
            s@.config == config@,
            s@.capture_state == CaptureState::Disabled,
            s@.last_cursor is None,
    {
        AppState { config, capture_state: CaptureState::Disabled, last_cursor: None }
    }

    /// A copy of the current configuration.
    pub fn config(&self) -> (cfg: AppConfig)
        ensures
            cfg@ == self@.config,
    {
        self.config.duplicate()
    }

    /// Replaces the configuration.
    pub fn set_config(&mut self, config: AppConfig)
        ensures
            final(self)@.config == config@,
            final(self)@.capture_state == old(self)@.capture_state,
            final(self)@.last_cursor == old(self)@.last_cursor,
    {
        self.config = config;
    }

    /// True when the capture pipeline is in any non-Disabled state.
    pub fn capture_enabled(&self) -> (b: bool)
        ensures
            b == (self@.capture_state != CaptureState::Disabled),
    {
        !matches!(self.capture_state, CaptureState::Disabled)
    }

    /// The current state of the capture pipeline.
    pub fn capture_state(&self) -> (s: CaptureState)
        ensures
            s == self@.capture_state,
    {
        self.capture_state
    }

    /// Hotkey master switch: Disabled <-> Idle. Toggling off from any
    /// state (including Floater / Popup) returns to Disabled. Returns
    /// whether capture is now enabled.
    pub fn toggle_capture(&mut self) -> (enabled: bool)
        ensures
            final(self)@ == after_event(old(self)@, CaptureEvent::Toggle),
            enabled == (final(self)@.capture_state != CaptureState::Disabled),
            enabled == (old(self)@.capture_state == CaptureState::Disabled),
    {
        self.capture_state = match self.capture_state {
            CaptureState::Disabled => CaptureState::Idle,
            _ => CaptureState::Disabled,
        };
        !matches!(self.capture_state, CaptureState::Disabled)
    }

    /// Idle / Floater -> Floater. Called after a successful selection
    /// capture. No-op if the machine is Disabled or already in Popup.
    pub fn enter_floater(&mut self)
        ensures
            final(self)@ == after_event(old(self)@, CaptureEvent::EnterFloater),
    {
        if matches!(self.capture_state, CaptureState::Idle | CaptureState::Floater) {
            self.capture_state = CaptureState::Floater;
        }
    }

    /// Floater -> Popup. Called before showing the lookup popup.
    /// No-op if the machine is not currently Floater.
    pub fn enter_popup(&mut self)
        ensures
            final(self)@ == after_event(old(self)@, CaptureEvent::EnterPopup),
    {
        if matches!(self.capture_state, CaptureState::Floater) {
            self.capture_state = CaptureState::Popup;
        }
    }

    /// Floater -> Idle. Invoked after the floater hides itself (timeout
    /// or click-when-empty). Idempotent.
    pub fn floater_hidden(&mut self)
        ensures
            final(self)@ == after_event(old(self)@, CaptureEvent::FloaterHidden),
    {
        if matches!(self.capture_state, CaptureState::Floater) {
            self.capture_state = CaptureState::Idle;
        }
    }

    /// Popup -> Idle. Invoked after the popup hides itself (close button
    /// or Esc). Idempotent.
    pub fn popup_hidden(&mut self)
        ensures
            final(self)@ == after_event(old(self)@, CaptureEvent::PopupHidden),
    {
        if matches!(self.capture_state, CaptureState::Popup) {
            self.capture_state = CaptureState::Idle;
        }
    }

    /// Records where the cursor was when the last selection was captured.
    pub fn set_last_cursor(&mut self, pos: (i32, i32))
        ensures
            final(self)@.last_cursor == Some(pos),
            final(self)@.config == old(self)@.config,
            final(self)@.capture_state == old(self)@.capture_state,
    {
        self.last_cursor = Some(pos);
    }

    /// The cursor position of the last captured selection, if any.
    pub fn last_cursor(&self) -> (pos: Option<(i32, i32)>)
        ensures
            pos == self@.last_cursor,
    {
        self.last_cursor
    }

    /// Turns autostart on or off in the stored configuration and returns
    /// the configuration to persist.
    pub fn set_autostart(&mut self, enabled: bool) -> (cfg: AppConfig)
        ensures
            cfg@.autostart == enabled,
            cfg@.hotkey == old(self)@.config.hotkey,
            cfg@.tts_voice == old(self)@.config.tts_voice,
            cfg@.uia_enabled == old(self)@.config.uia_enabled,
            cfg@.clipboard_enabled == old(self)@.config.clipboard_enabled,
            cfg@.capture_methods == old(self)@.config.capture_methods,
            final(self)@.config == cfg@,
            final(self)@.capture_state == old(self)@.capture_state,
            final(self)@.last_cursor == old(self)@.last_cursor,
    {
        let mut cfg = self.config();
        cfg.autostart = enabled;
        self.set_config(cfg.duplicate());
        cfg
    }
}

/// Toggling twice from `Disabled` comes back to `Disabled`; from any other
/// state it leaves the pipeline `Idle`.
pub proof fn lemma_toggle_twice(s: CaptureState)
    ensures
        next_capture_state(next_capture_state(s, CaptureEvent::Toggle), CaptureEvent::Toggle) == (
        if s == CaptureState::Disabled {
            CaptureState::Disabled
        } else {
            CaptureState::Idle
        }),
{
}

/// `Disabled` gates everything off: no event but the toggle enters or
/// leaves it.
pub proof fn lemma_only_toggle_crosses_disabled(s: CaptureState, event: CaptureEvent)
    requires
        event != CaptureEvent::Toggle,
    ensures
        (s == CaptureState::Disabled) <==> (next_capture_state(s, event) == CaptureState::Disabled),
{
}

/// While the popup is up, a new capture leaves the pipeline in `Popup`;
/// `Popup` is entered only from `Floater`, by a lookup request.
pub proof fn lemma_popup_entered_only_from_floater(s: CaptureState, event: CaptureEvent)
    ensures
        next_capture_state(CaptureState::Popup, CaptureEvent::EnterFloater) == CaptureState::Popup,
        s != CaptureState::Popup && next_capture_state(s, event) == CaptureState::Popup ==> s
            == CaptureState::Floater && event == CaptureEvent::EnterPopup,
{
}

/// The hide notifications are idempotent: a second one changes nothing.
pub proof fn lemma_hidden_idempotent(s: CaptureState)
    ensures
        next_capture_state(next_capture_state(s, CaptureEvent::FloaterHidden), CaptureEvent::FloaterHidden)
            == next_capture_state(s, CaptureEvent::FloaterHidden),
        next_capture_state(next_capture_state(s, CaptureEvent::PopupHidden), CaptureEvent::PopupHidden)
            == next_capture_state(s, CaptureEvent::PopupHidden),
{
}

/// The whole transition table of the capture pipeline, state by event.
pub proof fn lemma_transition_table()
    ensures
        next_capture_state(CaptureState::Disabled, CaptureEvent::Toggle) == CaptureState::Idle,
        next_capture_state(CaptureState::Idle, CaptureEvent::Toggle) == CaptureState::Disabled,
        next_capture_state(CaptureState::Floater, CaptureEvent::Toggle) == CaptureState::Disabled,
        next_capture_state(CaptureState::Popup, CaptureEvent::Toggle) == CaptureState::Disabled,
        next_capture_state(CaptureState::Disabled, CaptureEvent::EnterFloater) == CaptureState::Disabled,
        next_capture_state(CaptureState::Idle, CaptureEvent::EnterFloater) == CaptureState::Floater,
        next_capture_state(CaptureState::Floater, CaptureEvent::EnterFloater) == CaptureState::Floater,
        next_capture_state(CaptureState::Popup, CaptureEvent::EnterFloater) == CaptureState::Popup,
        next_capture_state(CaptureState::Disabled, CaptureEvent::EnterPopup) == CaptureState::Disabled,
        next_capture_state(CaptureState::Idle, CaptureEvent::EnterPopup) == CaptureState::Idle,
        next_capture_state(CaptureState::Floater, CaptureEvent::EnterPopup) == CaptureState::Popup,
        next_capture_state(CaptureState::Popup, CaptureEvent::EnterPopup) == CaptureState::Popup,
        next_capture_state(CaptureState::Disabled, CaptureEvent::FloaterHidden) == CaptureState::Disabled,
        next_capture_state(CaptureState::Idle, CaptureEvent::FloaterHidden) == CaptureState::Idle,
        next_capture_state(CaptureState::Floater, CaptureEvent::FloaterHidden) == CaptureState::Idle,
        next_capture_state(CaptureState::Popup, CaptureEvent::FloaterHidden) == CaptureState::Popup,
        next_capture_state(CaptureState::Disabled, CaptureEvent::PopupHidden) == CaptureState::Disabled,
        next_capture_state(CaptureState::Idle, CaptureEvent::PopupHidden) == CaptureState::Idle,
        next_capture_state(CaptureState::Floater, CaptureEvent::PopupHidden) == CaptureState::Floater,
        next_capture_state(CaptureState::Popup, CaptureEvent::PopupHidden) == CaptureState::Idle,
{
}

/// A capture accepted while capture is on lands in `Floater`, also when
/// the floater is already showing from an earlier capture.
pub proof fn lemma_capture_shows_floater(s: CaptureState)
    ensures
        s == CaptureState::Idle ==> next_capture_state(s, CaptureEvent::EnterFloater) == CaptureState::Floater,
        s == CaptureState::Floater ==> next_capture_state(s, CaptureEvent::EnterFloater) == CaptureState::Floater,
        next_capture_state(next_capture_state(CaptureState::Idle, CaptureEvent::EnterFloater), CaptureEvent::EnterFloater)
            == CaptureState::Floater,
{
}

/// A hide notification for the window that is not showing is a no-op.
pub proof fn lemma_hidden_noop_elsewhere(s: CaptureState)
    ensures
        s != CaptureState::Floater ==> next_capture_state(s, CaptureEvent::FloaterHidden) == s,
        s != CaptureState::Popup ==> next_capture_state(s, CaptureEvent::PopupHidden) == s,
        s != CaptureState::Floater ==> next_capture_state(s, CaptureEvent::EnterPopup) == s,
        (s == CaptureState::Disabled || s == CaptureState::Popup) ==> next_capture_state(s, CaptureEvent::EnterFloater) == s,
{
}

/// A full capture cycle, Idle -> Floater -> Popup -> Idle, comes back to
/// `Idle`, and so does Idle -> Floater -> (floater hides) -> Idle.
pub proof fn lemma_capture_cycles_return_to_idle()
    ensures
        next_capture_state(
            next_capture_state(
                next_capture_state(CaptureState::Idle, CaptureEvent::EnterFloater),
                CaptureEvent::EnterPopup,
            ),
            CaptureEvent::PopupHidden,
        ) == CaptureState::Idle,
        next_capture_state(
            next_capture_state(CaptureState::Idle, CaptureEvent::EnterFloater),
            CaptureEvent::FloaterHidden,
        ) == CaptureState::Idle,
{
}

/// Pipeline events leave the configuration and the recorded cursor alone.
pub proof fn lemma_events_keep_config_and_cursor(s: AppStateView, event: CaptureEvent)
    ensures
        after_event(s, event).config == s.config,
        after_event(s, event).last_cursor == s.last_cursor,
{
}

} // verus!
