//! Double-ctrl-press detection state machine.
//!
//! Time and cursor position come in with each event, so the detector makes
//! no system calls of its own.

use vstd::prelude::*;
use super::types::{ActivationMethod, SonarState};

verus! {

/// Least time between the first and the second press (ms), guarding against
/// keyboards that repeat an event at once.
pub const MIN_DOUBLE_CLICK_TIME: u64 = 100;

/// Which physical ctrl key an event comes from.
#[derive(Debug, Clone, Copy, PartialEq, Eq, Structural)]
pub enum CtrlSide {
    Left,
    Right,
}

/// A keyboard event fed to the detector.
#[derive(Debug, Clone)]
pub struct KeyEvent {
    /// True for a press, false for a release.
    pub pressed: bool,
    /// Whether the key is a ctrl key.
    pub is_ctrl: bool,
    /// Which ctrl key (meaningful only when `is_ctrl`).
    pub side: CtrlSide,
    /// Time of the event in milliseconds.
    pub timestamp_ms: u64,
    /// Cursor position at the time of the event.
    pub cursor_x: i32,
    pub cursor_y: i32,
}

/// What a fed event asks of the caller.
#[derive(Debug, Clone, Copy, PartialEq, Eq, Structural)]
pub enum DetectorResult {
    Nothing,
    Activate,
    Deactivate,
}

/// The abstract state of a detector.
pub struct DetectorView {
    pub state: SonarState,
    pub activation_method: ActivationMethod,
    pub include_win_key: bool,
    pub max_double_click_time: u64,
    pub last_key_time: u64,
    pub last_key_x: i32,
    pub last_key_y: i32,
    pub sonar_active: bool,
    pub win_key_held: bool,
}

impl DetectorView {
    /// The spotlight is on exactly in the two states after an accepted second press.
    pub open spec fn inv(self) -> bool {
        self.sonar_active <==> (self.state == SonarState::ControlDown2 || self.state
            == SonarState::ControlUp2)
    }

    pub open spec fn with_state(self, state: SonarState) -> DetectorView {
        DetectorView { state, ..self }
    }

    /// Records the time and position of a press and moves to `state`.
    pub open spec fn record(self, state: SonarState, e: KeyEvent, active: bool) -> DetectorView {
        DetectorView {
            state,
            last_key_time: e.timestamp_ms,
            last_key_x: e.cursor_x,
            last_key_y: e.cursor_y,
            sonar_active: active,
            ..self
        }
    }

    /// Turns the spotlight off and returns to `Idle`.
    pub open spec fn stopped(self) -> (DetectorView, DetectorResult) {
        (
            DetectorView { state: SonarState::Idle, sonar_active: false, ..self },
            if self.sonar_active {
                DetectorResult::Deactivate
            } else {
                DetectorResult::Nothing
            },
        )
    }

    pub open spec fn is_double_ctrl(self) -> bool {
        self.activation_method == ActivationMethod::DoubleLeftCtrl || self.activation_method
            == ActivationMethod::DoubleRightCtrl
    }

    pub open spec fn expected_side(self) -> CtrlSide {
        if self.activation_method == ActivationMethod::DoubleLeftCtrl {
            CtrlSide::Left
        } else {
            CtrlSide::Right
        }
    }

    pub open spec fn can_activate(self) -> bool {
        !self.include_win_key || self.win_key_held
    }

    /// Shortest accepted interval between the two presses.
    pub open spec fn min_interval(self) -> int {
        if MIN_DOUBLE_CLICK_TIME <= self.max_double_click_time / 5 {
            MIN_DOUBLE_CLICK_TIME as int
        } else {
            (self.max_double_click_time / 5) as int
        }
    }

    /// Whether a second press `e` completes a double press.
    pub open spec fn accepts_second_press(self, e: KeyEvent) -> bool {
        let interval = if e.timestamp_ms >= self.last_key_time {
            e.timestamp_ms - self.last_key_time
        } else {
            0
        };
        &&& interval >= self.min_interval()
        &&& interval <= self.max_double_click_time
        &&& e.cursor_x == self.last_key_x
        &&& e.cursor_y == self.last_key_y
    }

    /// The state and result after feeding one event.
    pub open spec fn feed(self, e: KeyEvent) -> (DetectorView, DetectorResult) {
        if self.activation_method == ActivationMethod::Shortcut && !e.pressed {
            (self, DetectorResult::Nothing)
        } else if !self.is_double_ctrl() || !e.is_ctrl || e.side != self.expected_side() {
            self.stopped()
        } else {
            match self.state {
                SonarState::Idle => if e.pressed {
                    (self.record(SonarState::ControlDown1, e, self.sonar_active), DetectorResult::Nothing)
                } else {
                    (self, DetectorResult::Nothing)
                },
                SonarState::ControlDown1 => if !e.pressed {
                    (self.with_state(SonarState::ControlUp1), DetectorResult::Nothing)
                } else {
                    (self, DetectorResult::Nothing)
                },
                SonarState::ControlUp1 => if e.pressed && self.can_activate() {
                    if self.accepts_second_press(e) {
                        (self.record(SonarState::ControlDown2, e, true), DetectorResult::Activate)
                    } else {
                        (self.record(SonarState::ControlDown1, e, self.sonar_active), DetectorResult::Nothing)
                    }
                } else {
                    (self, DetectorResult::Nothing)
                },
                SonarState::ControlDown2 => if !e.pressed {
                    (self.with_state(SonarState::ControlUp2), DetectorResult::Nothing)
                } else {
                    (self, DetectorResult::Nothing)
                },
                SonarState::ControlUp2 => if e.pressed {
                    self.stopped()
                } else {
                    (self, DetectorResult::Nothing)
                },
            }
        }
    }
}

/// Double-ctrl-press detector.
pub struct CtrlDetector {
    state: SonarState,
    activation_method: ActivationMethod,
    include_win_key: bool,
    max_double_click_time: u64,
    last_key_time: u64,
    last_key_x: i32,
    last_key_y: i32,
    sonar_active: bool,
    win_key_held: bool,
}

impl View for CtrlDetector {
    type V = DetectorView;

    closed spec fn view(&self) -> DetectorView {
        DetectorView {
            state: self.state,
            activation_method: self.activation_method,
            include_win_key: self.include_win_key,
            max_double_click_time: self.max_double_click_time,
            last_key_time: self.last_key_time,
            last_key_x: self.last_key_x,
            last_key_y: self.last_key_y,
            sonar_active: self.sonar_active,
            win_key_held: self.win_key_held,
        }
    }
}

impl CtrlDetector {
    pub fn new(activation_method: ActivationMethod, include_win_key: bool) -> (d: Self)
        ensures
            d@ == (DetectorView {
                state: SonarState::Idle,
                activation_method,
                include_win_key,
                max_double_click_time: 500,
                last_key_time: 0,
                last_key_x: 0,
                last_key_y: 0,
                sonar_active: false,
                win_key_held: false,
            }),
            d@.inv(),
    {
        CtrlDetector {
            state: SonarState::Idle,
            activation_method,
            include_win_key,
            max_double_click_time: 500,
            last_key_time: 0,
            last_key_x: 0,
            last_key_y: 0,
            sonar_active: false,
            win_key_held: false,
        }
    }

    /// Sets the longest accepted interval between the two presses.
    pub fn set_max_double_click_time(&mut self, ms: u64)
        ensures
            final(self)@ == (DetectorView { max_double_click_time: ms, ..old(self)@ }),
    {
        self.max_double_click_time = ms;
    }

    /// Records whether the Windows key is currently held.
    pub fn set_win_key_held(&mut self, held: bool)
        ensures
            final(self)@ == (DetectorView { win_key_held: held, ..old(self)@ }),
    {
        self.win_key_held = held;
    }

    pub fn is_sonar_active(&self) -> (b: bool)
        ensures
            b == self@.sonar_active,
    {
        self.sonar_active
    }

    pub fn state(&self) -> (s: SonarState)
        ensures
            s == self@.state,
    {
        self.state
    }

    /// Feeds one key event and reports whether to turn the spotlight on or off.
    pub fn feed(&mut self, event: &KeyEvent) -> (r: DetectorResult)
        ensures
            (final(self)@, r) == old(self)@.feed(*event),
    {
        if self.activation_method == ActivationMethod::Shortcut && !event.pressed {
            return DetectorResult::Nothing;
        }
        if (self.activation_method != ActivationMethod::DoubleLeftCtrl
            && self.activation_method != ActivationMethod::DoubleRightCtrl) || !event.is_ctrl {
            return self.stop_sonar();
        }
        let expected_side = match self.activation_method {
            ActivationMethod::DoubleLeftCtrl => CtrlSide::Left,
            ActivationMethod::DoubleRightCtrl => CtrlSide::Right,
            _ => return self.stop_sonar(),
        };
        if event.side != expected_side {
            return self.stop_sonar();
        }
        match self.state {
            SonarState::Idle => {
                if event.pressed {
                    self.state = SonarState::ControlDown1;
                    self.last_key_time = event.timestamp_ms;
                    self.last_key_x = event.cursor_x;
                    self.last_key_y = event.cursor_y;
                }
                DetectorResult::Nothing
            },
            SonarState::ControlDown1 => {
                if !event.pressed {
                    self.state = SonarState::ControlUp1;
                }
                DetectorResult::Nothing
            },
            SonarState::ControlUp1 => {
                if event.pressed && self.keyboard_input_can_activate() {
                    let interval = if event.timestamp_ms >= self.last_key_time {
                        event.timestamp_ms - self.last_key_time
                    } else {
                        0
                    };
                    let fifth = self.max_double_click_time / 5;
                    let min_time = if MIN_DOUBLE_CLICK_TIME <= fifth {
                        MIN_DOUBLE_CLICK_TIME
                    } else {
                        fifth
                    };
                    let cursor_same = event.cursor_x == self.last_key_x && event.cursor_y
                        == self.last_key_y;
                    if interval >= min_time && interval <= self.max_double_click_time
                        && cursor_same {
                        self.state = SonarState::ControlDown2;
                        self.last_key_time = event.timestamp_ms;
                        self.last_key_x = event.cursor_x;
                        self.last_key_y = event.cursor_y;
                        self.sonar_active = true;
                        return DetectorResult::Activate;
                    }
                    self.state = SonarState::ControlDown1;
                    self.last_key_time = event.timestamp_ms;
                    self.last_key_x = event.cursor_x;
                    self.last_key_y = event.cursor_y;
                }
                DetectorResult::Nothing
            },
            SonarState::ControlDown2 => {
                if !event.pressed {
                    self.state = SonarState::ControlUp2;
                }
                DetectorResult::Nothing
            },
            SonarState::ControlUp2 => {
                if event.pressed {
                    return self.stop_sonar();
                }
                DetectorResult::Nothing
            },
        }
    }

    fn stop_sonar(&mut self) -> (r: DetectorResult)
        ensures
            (final(self)@, r) == old(self)@.stopped(),
    {
        let was_active = self.sonar_active;
        self.sonar_active = false;
        self.state = SonarState::Idle;
        if was_active {
            DetectorResult::Deactivate
        } else {
            DetectorResult::Nothing
        }
    }

    fn keyboard_input_can_activate(&self) -> (b: bool)
        ensures
            b == self@.can_activate(),
    {
        !self.include_win_key || self.win_key_held
    }
}

/// Feeding any event keeps the spotlight on exactly in the states after an
/// accepted second press.
pub proof fn lemma_feed_keeps_invariant(d: DetectorView, e: KeyEvent)
    requires
        d.inv(),
    ensures
        d.feed(e).0.inv(),
{
}

/// The spotlight turns on only through an `Activate` result, and is then in
/// `ControlDown2`; it turns off only through a `Deactivate` result, and is then `Idle`.
pub proof fn lemma_activation_is_reported(d: DetectorView, e: KeyEvent)
    requires
        d.inv(),
    ensures
        !d.sonar_active && d.feed(e).0.sonar_active ==> d.feed(e).1 == DetectorResult::Activate
            && d.feed(e).0.state == SonarState::ControlDown2,
        d.sonar_active && !d.feed(e).0.sonar_active ==> d.feed(e).1 == DetectorResult::Deactivate
            && d.feed(e).0.state == SonarState::Idle,
        d.feed(e).1 == DetectorResult::Activate ==> !d.sonar_active && d.feed(e).0.sonar_active,
        d.feed(e).1 == DetectorResult::Deactivate ==> d.sonar_active && !d.feed(e).0.sonar_active,
{
}

/// In shortcut mode a key release changes nothing.
pub proof fn lemma_shortcut_ignores_release(d: DetectorView, e: KeyEvent)
    requires
        d.activation_method == ActivationMethod::Shortcut,
        !e.pressed,
    ensures
        d.feed(e) == (d, DetectorResult::Nothing),
{
}

} // verus!

verus! {

/// A double press is recognised exactly when, in double-ctrl mode, a press
/// of the configured ctrl key follows a press and release of it, with the
/// win key held where it is required, the cursor at exactly the position of
/// the first press, and the time since the first press within the maximum
/// double-click time and at least the minimum interval (the smaller of
/// `MIN_DOUBLE_CLICK_TIME` and a fifth of the maximum). The spotlight is
/// then on, in `ControlDown2`, and the second press is recorded.
pub proof fn lemma_double_press_recognised(d: DetectorView, e: KeyEvent)
    ensures
        d.feed(e).1 == DetectorResult::Activate <==> {
            let interval: int = if e.timestamp_ms >= d.last_key_time {
                e.timestamp_ms - d.last_key_time
            } else {
                0
            };
            &&& d.activation_method == ActivationMethod::DoubleLeftCtrl && e.side == CtrlSide::Left
                || d.activation_method == ActivationMethod::DoubleRightCtrl && e.side == CtrlSide::Right
            &&& e.is_ctrl
            &&& e.pressed
            &&& d.state == SonarState::ControlUp1
            &&& !d.include_win_key || d.win_key_held
            &&& e.cursor_x == d.last_key_x
            &&& e.cursor_y == d.last_key_y
            &&& interval <= d.max_double_click_time
            &&& interval >= MIN_DOUBLE_CLICK_TIME || interval >= d.max_double_click_time / 5
        },
        d.feed(e).1 == DetectorResult::Activate ==> {
            &&& d.feed(e).0.sonar_active
            &&& d.feed(e).0.state == SonarState::ControlDown2
            &&& d.feed(e).0.last_key_time == e.timestamp_ms
            &&& d.feed(e).0.last_key_x == e.cursor_x
            &&& d.feed(e).0.last_key_y == e.cursor_y
        },
{
}

} // verus!

verus! {

/// Any key other than the configured ctrl key (and, outside double-ctrl
/// modes, any press) turns the spotlight off and returns to `Idle`,
/// reporting `Deactivate` exactly when the spotlight was on; in shortcut
/// mode a release changes nothing. After a double press and its release, a
/// third press of the configured ctrl key turns the spotlight off.
pub proof fn lemma_detector_stops(d: DetectorView, e: KeyEvent)
    requires
        d.inv(),
    ensures
        ({
            let matching = e.is_ctrl && (d.activation_method == ActivationMethod::DoubleLeftCtrl && e.side
                == CtrlSide::Left || d.activation_method == ActivationMethod::DoubleRightCtrl && e.side
                == CtrlSide::Right);
            &&& (d.activation_method != ActivationMethod::Shortcut || e.pressed) && !matching ==> {
                &&& d.feed(e).0.state == SonarState::Idle
                &&& !d.feed(e).0.sonar_active
                &&& (d.feed(e).1 == DetectorResult::Deactivate <==> d.sonar_active)
                &&& (d.feed(e).1 == DetectorResult::Nothing <==> !d.sonar_active)
            }
            &&& d.activation_method == ActivationMethod::Shortcut && !e.pressed ==> d.feed(e) == (d, DetectorResult::Nothing)
            &&& matching && e.pressed && d.state == SonarState::ControlUp2 ==> {
                &&& d.feed(e).0.state == SonarState::Idle
                &&& !d.feed(e).0.sonar_active
                &&& d.feed(e).1 == DetectorResult::Deactivate
            }
        }),
{
}

} // verus!
