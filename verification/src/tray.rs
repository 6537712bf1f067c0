//! The tray menu: which item does what, and how the tray shows the state
//! of the capture switch.
use vstd::prelude::*;
use crate::text::str_eq;

verus! {

/// The id of the tray icon.
pub const TRAY_ID: &'static str = "main-tray";

/// The id of the menu item that opens the settings window.
pub const MENU_SETTINGS: &'static str = "open_settings";

/// The id of the menu item that flips the capture switch.
pub const MENU_TOGGLE: &'static str = "toggle_capture";

/// The id of the menu item that quits.
pub const MENU_QUIT: &'static str = "quit";

/// What a click on a menu item does.
#[derive(Debug, Clone, Copy, PartialEq, Eq, Structural)]
pub enum MenuAction {
    OpenSettings,
    ToggleCapture,
    Quit,
    Ignore,
}

/// The action of the menu item with id `id`; ids that no item has are ignored.
pub fn menu_action(id: &str) -> (a: MenuAction)
    ensures
        a == (if id@ == MENU_SETTINGS@ {
            MenuAction::OpenSettings
        } else if id@ == MENU_TOGGLE@ {
            MenuAction::ToggleCapture
        } else if id@ == MENU_QUIT@ {
            MenuAction::Quit
        } else {
            MenuAction::Ignore
        }),
{
    if str_eq(id, MENU_SETTINGS) {
        MenuAction::OpenSettings
    } else if str_eq(id, MENU_TOGGLE) {
        MenuAction::ToggleCapture
    } else if str_eq(id, MENU_QUIT) {
        MenuAction::Quit
    } else {
        MenuAction::Ignore
    }
}

/// The label of the settings item.
pub const LABEL_SETTINGS: &'static str = "打开设置";

/// The toggle item's label while capture is off.
pub const LABEL_ENABLE: &'static str = "启用划词监听";

/// The toggle item's label while capture is on.
pub const LABEL_DISABLE: &'static str = "关闭划词监听";

/// The quit item's label.
pub const LABEL_QUIT: &'static str = "退出";

/// The tray tooltip while capture is on.
pub const TIP_ON: &'static str = "煤球词典 — 划词监听：开";

/// The tray tooltip while capture is off.
pub const TIP_OFF: &'static str = "煤球词典 — 划词监听：关";

/// How the tray shows the capture switch: its tooltip and the toggle
/// item's label, which offers the opposite of the current state.
pub fn tray_texts(enabled: bool) -> (texts: (&'static str, &'static str))
    ensures
        texts.0@ == (if enabled {
            TIP_ON@
        } else {
            TIP_OFF@
        }),
        texts.1@ == (if enabled {
            LABEL_DISABLE@
        } else {
            LABEL_ENABLE@
        }),
{
    if enabled {
        (TIP_ON, LABEL_DISABLE)
    } else {
        (TIP_OFF, LABEL_ENABLE)
    }
}

} // verus!
