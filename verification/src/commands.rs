//! The decisions behind the commands the web front end invokes.
use vstd::prelude::*;
use crate::tts::Accent;
use crate::window::Position;

verus! {

/// The accent the front end asks the speech command for.
#[derive(Debug, Clone, Copy, PartialEq, Eq, Structural)]
pub enum TtsAccent {
    EnUs,
    EnGb,
}

/// The speech engine's accent for a requested accent.
pub fn accent_of(accent: TtsAccent) -> (a: Accent)
    ensures
        accent is EnUs ==> a is EnUs,
        accent is EnGb ==> a is EnGb,
{
    match accent {
        TtsAccent::EnUs => Accent::EnUs,
        TtsAccent::EnGb => Accent::EnGb,
    }
}

/// How far, in pixels, the popup sits below the captured cursor.
pub const POPUP_DROP: i32 = 30;

/// Where the lookup popup is anchored for a selection captured at `cursor`.
pub fn popup_anchor(cursor: (i32, i32)) -> (p: Position)
    requires
        cursor.1 + POPUP_DROP <= i32::MAX,
    ensures
        p.x == cursor.0,
        p.y == cursor.1 + POPUP_DROP,
{
    Position { x: cursor.0, y: cursor.1 + POPUP_DROP }
}

} // verus!
