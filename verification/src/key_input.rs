//! What the editor window does with one keyboard event from the host: the
//! tracked Control state, the deferred paste chord, the Control sync sent
//! to the UI, and whether the event is reported as captured. The window
//! handler reads the plain facts of the event and acts on the answer.

use vstd::prelude::*;

verus! {

/// Which key events the editor reports as captured. For the two list
/// modes, whether the event's key is in the list is a fact of the event.
#[derive(Clone, Copy, Debug, PartialEq, Eq, Structural)]
pub enum KeyCaptureMode {
    CaptureAll,
    IgnoreAll,
    /// Capture the listed keys, ignore the rest.
    CaptureKeys,
    /// Ignore the listed keys, capture the rest.
    IgnoreKeys,
}

/// The facts of one key event the decision reads.
#[derive(Clone, Copy, Debug, PartialEq, Eq, Structural)]
pub struct KeyEventFacts {
    /// The key is the Control key itself.
    pub is_control: bool,
    /// The key is a modifier: Control, Shift, Alt, Meta, AltGraph or
    /// CapsLock.
    pub is_modifier: bool,
    /// The key is the named Paste key.
    pub is_paste_named: bool,
    /// The key is the character `v` or `V`, or the physical V key.
    pub is_v: bool,
    /// The key is in the capture mode's list.
    pub in_list: bool,
    /// The event's modifier flags contain Control.
    pub ctrl_flag: bool,
    /// Key down (otherwise key up).
    pub down: bool,
    /// An auto-repeat.
    pub repeat: bool,
}

/// Control press or release sent to the UI to keep its modifier state in
/// step with the host.
#[derive(Clone, Copy, Debug, PartialEq, Eq, Structural)]
pub enum ControlSync {
    Press,
    Release,
}

/// The answer for one key event.
#[derive(Clone, Copy, Debug, PartialEq, Eq)]
pub struct KeyDecision {
    /// Control is held, as tracked from Control key events.
    pub ctrl_held: bool,
    /// A paste chord: read the clipboard on the next frame (reading it
    /// inside the key message fails while the host holds it open). The
    /// event is then captured and handled no further.
    pub paste: bool,
    /// Control state to send to the UI before the key itself.
    pub control_sync: Option<ControlSync>,
    /// The event is reported to the host as captured.
    pub captured: bool,
}

/// Whether the capture mode captures an event.
pub open spec fn captures(mode: KeyCaptureMode, in_list: bool) -> bool {
    match mode {
        KeyCaptureMode::CaptureAll => true,
        KeyCaptureMode::IgnoreAll => false,
        KeyCaptureMode::CaptureKeys => in_list,
        KeyCaptureMode::IgnoreKeys => !in_list,
    }
}

/// The decision for event `f`, with Control held before it as `ctrl_held`.
pub open spec fn key_decision_of(mode: KeyCaptureMode, f: KeyEventFacts, ctrl_held: bool) -> KeyDecision {
    let held = if f.is_control { f.down } else { ctrl_held };
    let ctrl = f.ctrl_flag || held;
    let paste = f.down && !f.repeat && (f.is_paste_named || f.is_v) && (ctrl || f.is_paste_named);
    if paste {
        KeyDecision { ctrl_held: held, paste: true, control_sync: None, captured: true }
    } else {
        KeyDecision {
            ctrl_held: held,
            paste: false,
            control_sync: if !f.is_modifier && f.down {
                Some(if ctrl { ControlSync::Press } else { ControlSync::Release })
            } else {
                None
            },
            captured: captures(mode, f.in_list),
        }
    }
}

/// Decide one key event.
pub fn key_decision(mode: KeyCaptureMode, f: KeyEventFacts, ctrl_held: bool) -> (d: KeyDecision)
    ensures
        d == key_decision_of(mode, f, ctrl_held),
{
    let held = if f.is_control {
        f.down
    } else {
        ctrl_held
    };
    let ctrl = f.ctrl_flag || held;
    let is_paste_key = f.is_paste_named || f.is_v;
    if f.down && !f.repeat && is_paste_key && (ctrl || f.is_paste_named) {
        return KeyDecision { ctrl_held: held, paste: true, control_sync: None, captured: true };
    }
    let control_sync = if !f.is_modifier && f.down {
        if ctrl {
            Some(ControlSync::Press)
        } else {
            Some(ControlSync::Release)
        }
    } else {
        None
    };
    let captured = match mode {
        KeyCaptureMode::CaptureAll => true,
        KeyCaptureMode::IgnoreAll => false,
        KeyCaptureMode::CaptureKeys => f.in_list,
        KeyCaptureMode::IgnoreKeys => !f.in_list,
    };
    KeyDecision { ctrl_held: held, paste: false, control_sync, captured }
}

} // verus!
