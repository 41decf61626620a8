//! The accent picker's key-handling state machine: key events in, whether
//! to swallow the key and what the host should show or type out.

use vstd::prelude::*;
use super::accent_map::{get_accents_for_languages, has_accents, accents_of, letter_of_vk, merged_accents, LetterKey};
use super::settings::{trigger_allowed, Settings};

verus! {

/// A key that opens or moves through the accent picker.
#[derive(Debug, Clone, Copy, PartialEq, Eq, Structural)]
pub enum TriggerKey {
    Space,
    Left,
    Right,
}

/// The trigger key of a virtual-key code, if any.
pub open spec fn trigger_of_vk(vk: u32) -> Option<TriggerKey> {
    if vk == 0x20 {
        Some(TriggerKey::Space)
    } else if vk == 0x25 {
        Some(TriggerKey::Left)
    } else if vk == 0x27 {
        Some(TriggerKey::Right)
    } else {
        None
    }
}

impl TriggerKey {
    /// Converts a virtual-key code to a trigger key.
    pub fn from_vk(vk: u32) -> (r: Option<Self>)
        ensures
            r == trigger_of_vk(vk),
    {
        match vk {
            0x20 => Some(Self::Space),
            0x25 => Some(Self::Left),
            0x27 => Some(Self::Right),
            _ => None,
        }
    }
}

/// Something the host should do after a key event.
#[derive(Debug, Clone, PartialEq, Eq)]
pub enum Action {
    /// Show the picker for a letter.
    ShowAccents { letter: LetterKey, accents: Vec<char> },
    /// Highlight another accent.
    UpdateSelection { index: usize, ch: char },
    /// Type the selected accent.
    EmitAccent { ch: char },
    /// Type the trigger key instead of an accent (a release that came too soon).
    EmitTrigger { trigger: TriggerKey },
    /// Hide the picker.
    HideAccents,
}

/// The abstract value of an action.
pub enum ActionView {
    ShowAccents { letter: LetterKey, accents: Seq<char> },
    UpdateSelection { index: int, ch: char },
    EmitAccent { ch: char },
    EmitTrigger { trigger: TriggerKey },
    HideAccents,
}

impl View for Action {
    type V = ActionView;

    open spec fn view(&self) -> ActionView {
        match self {
            Action::ShowAccents { letter, accents } => ActionView::ShowAccents { letter: *letter, accents: accents@ },
            Action::UpdateSelection { index, ch } => ActionView::UpdateSelection { index: *index as int, ch: *ch },
            Action::EmitAccent { ch } => ActionView::EmitAccent { ch: *ch },
            Action::EmitTrigger { trigger } => ActionView::EmitTrigger { trigger: *trigger },
            Action::HideAccents => ActionView::HideAccents,
        }
    }
}

/// The answer to one key event.
#[derive(Debug, Clone)]
pub struct KeyResult {
    /// Whether the key is swallowed instead of reaching the application.
    pub suppress: bool,
    /// What the host should do.
    pub actions: Vec<Action>,
}

impl KeyResult {
    pub open spec fn actions_view(self) -> Seq<ActionView> {
        self.actions@.map_values(|a: Action| a@)
    }

    fn pass_through() -> (r: Self)
        ensures
            !r.suppress,
            r.actions@.len() == 0,
    {
        KeyResult { suppress: false, actions: Vec::new() }
    }

    fn suppressed(actions: Vec<Action>) -> (r: Self)
        ensures
            r.suppress,
            r.actions == actions,
    {
        KeyResult { suppress: true, actions }
    }
}

/// The state of the picker.
#[derive(Debug)]
enum State {
    Idle,
    LetterHeld { letter: LetterKey, press_time_ms: u64 },
    AccentActive {
        letter: LetterKey,
        accents: Vec<char>,
        selected_index: usize,
        press_time_ms: u64,
        trigger: TriggerKey,
    },
}

/// The abstract state of the picker.
pub enum PickerState {
    /// No letter held.
    Idle,
    /// A letter with accents is held; the picker is not shown yet.
    LetterHeld { letter: LetterKey, press_time_ms: u64 },
    /// The picker is shown and an accent is highlighted.
    AccentActive {
        letter: LetterKey,
        accents: Seq<char>,
        selected_index: int,
        press_time_ms: u64,
        trigger: TriggerKey,
    },
}

impl PickerState {
    /// In the active state there is a highlighted accent.
    pub open spec fn inv(self) -> bool {
        self matches PickerState::AccentActive { accents, selected_index, .. } ==> 0 <= selected_index
            < accents.len()
    }
}

/// The picker state after an event, whether the key is swallowed, and the actions.
pub struct Step {
    pub state: PickerState,
    pub suppress: bool,
    pub actions: Seq<ActionView>,
}

/// The character at position `i` (a named form that keeps the value typed as a `char`).
pub open spec fn char_at(s: Seq<char>, i: int) -> char {
    s[i]
}

pub open spec fn pass_step(state: PickerState) -> Step {
    Step { state, suppress: false, actions: Seq::empty() }
}

/// A letter key goes down.
pub open spec fn letter_down_step(s: PickerState, languages: Seq<Language>, letter: LetterKey, time_ms: u64) -> Step {
    match s {
        PickerState::Idle => if exists|i: int| 0 <= i < languages.len() && accents_of(letter, #[trigger] languages[i]).len() > 0 {
            pass_step(PickerState::LetterHeld { letter, press_time_ms: time_ms })
        } else {
            pass_step(s)
        },
        PickerState::AccentActive { letter: active, .. } => if letter == active {
            Step { state: s, suppress: true, actions: Seq::empty() }
        } else {
            pass_step(s)
        },
        PickerState::LetterHeld { .. } => pass_step(s),
    }
}

/// A trigger key goes down: opens the picker on a held letter, or moves
/// the highlight (right and space forward, left and shift-space backward, wrapping).
pub open spec fn trigger_down_step(s: PickerState, settings: Settings, trigger: TriggerKey, shift_held: bool) -> Step {
    if !trigger_allowed(settings.activation_key, trigger) {
        pass_step(s)
    } else {
        match s {
            PickerState::LetterHeld { letter, press_time_ms } => {
                let accents = merged_accents(letter, settings.selected_languages@);
                if accents.len() == 0 {
                    pass_step(s)
                } else {
                    Step {
                        state: PickerState::AccentActive { letter, accents, selected_index: 0, press_time_ms, trigger },
                        suppress: true,
                        actions: seq![
                            ActionView::ShowAccents { letter, accents },
                            ActionView::UpdateSelection { index: 0, ch: char_at(accents, 0) },
                        ],
                    }
                }
            },
            PickerState::AccentActive { letter, accents, selected_index, press_time_ms, trigger: original } => {
                let len = accents.len() as int;
                let backward = trigger == TriggerKey::Left || (trigger == TriggerKey::Space && shift_held);
                let new_index = if backward {
                    (selected_index + len - 1) % len
                } else {
                    (selected_index + 1) % len
                };
                Step {
                    state: PickerState::AccentActive { letter, accents, selected_index: new_index, press_time_ms, trigger: original },
                    suppress: true,
                    actions: seq![ActionView::UpdateSelection { index: new_index, ch: char_at(accents, new_index) }],
                }
            },
            PickerState::Idle => pass_step(s),
        }
    }
}

/// A letter key goes up: releasing the held letter closes the picker and
/// types either the highlighted accent or, after too short a hold, the trigger key.
pub open spec fn letter_up_step(s: PickerState, input_time_ms: u64, letter: LetterKey, time_ms: u64) -> Step {
    match s {
        PickerState::LetterHeld { letter: held, .. } => if held == letter {
            pass_step(PickerState::Idle)
        } else {
            pass_step(s)
        },
        PickerState::AccentActive { letter: held, accents, selected_index, press_time_ms, trigger } => if held == letter {
            let elapsed = if time_ms >= press_time_ms {
                time_ms - press_time_ms
            } else {
                0
            };
            if elapsed < input_time_ms {
                Step {
                    state: PickerState::Idle,
                    suppress: true,
                    actions: seq![ActionView::HideAccents, ActionView::EmitTrigger { trigger }],
                }
            } else {
                Step {
                    state: PickerState::Idle,
                    suppress: true,
                    actions: seq![ActionView::HideAccents, ActionView::EmitAccent { ch: char_at(accents, selected_index) }],
                }
            }
        } else {
            pass_step(s)
        },
        PickerState::Idle => pass_step(s),
    }
}

pub open spec fn key_down_step(s: PickerState, settings: Settings, vk: u32, time_ms: u64, shift_held: bool) -> Step {
    match trigger_of_vk(vk) {
        Some(t) => trigger_down_step(s, settings, t, shift_held),
        None => match letter_of_vk(vk) {
            Some(l) => letter_down_step(s, settings.selected_languages@, l, time_ms),
            None => pass_step(s),
        },
    }
}

pub open spec fn key_up_step(s: PickerState, settings: Settings, vk: u32, time_ms: u64) -> Step {
    match letter_of_vk(vk) {
        Some(l) => letter_up_step(s, settings.input_time_ms, l, time_ms),
        None => pass_step(s),
    }
}

use super::settings::Language;

/// The accent selection state machine.
pub struct AccentStateMachine {
    state: State,
    settings: Settings,
}

spec fn state_view(s: State) -> PickerState {
    match s {
        State::Idle => PickerState::Idle,
        State::LetterHeld { letter, press_time_ms } => PickerState::LetterHeld { letter, press_time_ms },
        State::AccentActive { letter, accents, selected_index, press_time_ms, trigger } => PickerState::AccentActive {
            letter,
            accents: accents@,
            selected_index: selected_index as int,
            press_time_ms,
            trigger,
        },
    }
}

fn copy_chars(v: &Vec<char>) -> (r: Vec<char>)
    ensures
        r@ == v@,
{
    let mut r: Vec<char> = Vec::new();
    let mut i: usize = 0;
    while i < v.len()
        invariant
            i <= v@.len(),
            r@ == v@.take(i as int),
        decreases v@.len() - i,
    {
        r.push(v[i]);
        i = i + 1;
        proof {
            assert(r@ =~= v@.take(i as int));
        }
    }
    proof {
        assert(r@ =~= v@);
    }
    r
}

impl AccentStateMachine {
    #[verifier::type_invariant]
    spec fn wf(&self) -> bool {
        state_view(self.state).inv()
    }

    /// The abstract picker state.
    pub closed spec fn picker(&self) -> PickerState {
        state_view(self.state)
    }

    pub closed spec fn current_settings(&self) -> Settings {
        self.settings
    }

    pub fn new(settings: Settings) -> (m: Self)
        ensures
            m.picker() == PickerState::Idle,
            m.current_settings() == settings,
    {
        AccentStateMachine { state: State::Idle, settings }
    }

    /// Replaces the settings.
    pub fn update_settings(&mut self, settings: Settings)
        ensures
            final(self).picker() == old(self).picker(),
            final(self).current_settings() == settings,
    {
        proof {
            use_type_invariant(&*self);
        }
        self.settings = settings;
    }

    pub fn settings(&self) -> (s: &Settings)
        ensures
            *s == self.current_settings(),
    {
        &self.settings
    }

    /// The highlighted accent, if the picker is shown.
    pub fn selected_char(&self) -> (c: Option<char>)
        ensures
            c == (match self.picker() {
                PickerState::AccentActive { accents, selected_index, .. } => Some(accents[selected_index]),
                _ => None,
            }),
    {
        proof {
            use_type_invariant(self);
        }
        match &self.state {
            State::AccentActive { accents, selected_index, .. } => Some(accents[*selected_index]),
            _ => None,
        }
    }

    /// Handles a key press.
    pub fn on_key_down(&mut self, vk_code: u32, time_ms: u64, shift_held: bool) -> (r: KeyResult)
        ensures
            final(self).current_settings() == old(self).current_settings(),
            final(self).picker() == key_down_step(old(self).picker(), old(self).current_settings(), vk_code, time_ms, shift_held).state,
            r.suppress == key_down_step(old(self).picker(), old(self).current_settings(), vk_code, time_ms, shift_held).suppress,
            r.actions_view() == key_down_step(old(self).picker(), old(self).current_settings(), vk_code, time_ms, shift_held).actions,
    {
        if let Some(trigger) = TriggerKey::from_vk(vk_code) {
            return self.handle_trigger_down(trigger, shift_held);
        }
        if let Some(letter) = LetterKey::from_vk(vk_code) {
            return self.handle_letter_down(letter, time_ms);
        }
        let r = KeyResult::pass_through();
        proof {
            assert(r.actions_view() =~= Seq::<ActionView>::empty());
        }
        r
    }

    /// Handles a key release.
    pub fn on_key_up(&mut self, vk_code: u32, time_ms: u64) -> (r: KeyResult)
        ensures
            final(self).current_settings() == old(self).current_settings(),
            final(self).picker() == key_up_step(old(self).picker(), old(self).current_settings(), vk_code, time_ms).state,
            r.suppress == key_up_step(old(self).picker(), old(self).current_settings(), vk_code, time_ms).suppress,
            r.actions_view() == key_up_step(old(self).picker(), old(self).current_settings(), vk_code, time_ms).actions,
    {
        if let Some(letter) = LetterKey::from_vk(vk_code) {
            return self.handle_letter_up(letter, time_ms);
        }
        let r = KeyResult::pass_through();
        proof {
            assert(r.actions_view() =~= Seq::<ActionView>::empty());
        }
        r
    }

    fn handle_letter_down(&mut self, letter: LetterKey, time_ms: u64) -> (r: KeyResult)
        ensures
            final(self).current_settings() == old(self).current_settings(),
            final(self).picker() == letter_down_step(old(self).picker(), old(self).current_settings().selected_languages@, letter, time_ms).state,
            r.suppress == letter_down_step(old(self).picker(), old(self).current_settings().selected_languages@, letter, time_ms).suppress,
            r.actions_view() == letter_down_step(old(self).picker(), old(self).current_settings().selected_languages@, letter, time_ms).actions,
    {
        let r = match &self.state {
            State::Idle => {
                if has_accents(letter, self.settings.selected_languages.as_slice()) {
                    self.state = State::LetterHeld { letter, press_time_ms: time_ms };
                }
                KeyResult::pass_through()
            },
            State::AccentActive { letter: active_letter, .. } => {
                if letter == *active_letter {
                    KeyResult::suppressed(Vec::new())
                } else {
                    KeyResult::pass_through()
                }
            },
            State::LetterHeld { .. } => KeyResult::pass_through(),
        };
        proof {
            assert(r.actions_view() =~= Seq::<ActionView>::empty());
        }
        r
    }

    fn handle_trigger_down(&mut self, trigger: TriggerKey, shift_held: bool) -> (r: KeyResult)
        ensures
            final(self).current_settings() == old(self).current_settings(),
            final(self).picker() == trigger_down_step(old(self).picker(), old(self).current_settings(), trigger, shift_held).state,
            r.suppress == trigger_down_step(old(self).picker(), old(self).current_settings(), trigger, shift_held).suppress,
            r.actions_view() == trigger_down_step(old(self).picker(), old(self).current_settings(), trigger, shift_held).actions,
    {
        proof {
            use_type_invariant(&*self);
        }
        if !self.settings.is_trigger_allowed(trigger) {
            let r = KeyResult::pass_through();
            proof {
                assert(r.actions_view() =~= Seq::<ActionView>::empty());
            }
            return r;
        }
        let mut current = State::Idle;
        std::mem::swap(&mut current, &mut self.state);
        match current {
            State::LetterHeld { letter, press_time_ms } => {
                let accents = get_accents_for_languages(letter, self.settings.selected_languages.as_slice());
                if accents.len() == 0 {
                    self.state = State::LetterHeld { letter, press_time_ms };
                    let r = KeyResult::pass_through();
                    proof {
                        assert(r.actions_view() =~= Seq::<ActionView>::empty());
                    }
                    return r;
                }
                let shown = copy_chars(&accents);
                let first = accents[0];
                self.state = State::AccentActive { letter, accents, selected_index: 0, press_time_ms, trigger };
                let mut actions: Vec<Action> = Vec::new();
                actions.push(Action::ShowAccents { letter, accents: shown });
                actions.push(Action::UpdateSelection { index: 0, ch: first });
                let r = KeyResult::suppressed(actions);
                proof {
                    assert(r.actions_view() =~= seq![
                        ActionView::ShowAccents { letter, accents: shown@ },
                        ActionView::UpdateSelection { index: 0, ch: first },
                    ]);
                }
                r
            },
            State::AccentActive { letter, accents, selected_index, press_time_ms, trigger: original } => {
                let len = accents.len();
                let backward = trigger == TriggerKey::Left || (trigger == TriggerKey::Space && shift_held);
                let new_index = if backward {
                    if selected_index == 0 {
                        len - 1
                    } else {
                        selected_index - 1
                    }
                } else {
                    if selected_index + 1 == len {
                        0
                    } else {
                        selected_index + 1
                    }
                };
                proof {
                    let l = len as int;
                    let s = selected_index as int;
                    if backward {
                        if s == 0 {
                            assert((s + l - 1) % l == l - 1) by (nonlinear_arith)
                                requires
                                    s == 0,
                                    l > 0,
                            ;
                        } else {
                            assert((s + l - 1) % l == s - 1) by (nonlinear_arith)
                                requires
                                    0 < s < l,
                            ;
                        }
                    } else {
                        if s + 1 == l {
                            assert((s + 1) % l == 0) by (nonlinear_arith)
                                requires
                                    s + 1 == l,
                                    s >= 0,
                            ;
                        } else {
                            assert((s + 1) % l == s + 1) by (nonlinear_arith)
                                requires
                                    0 <= s,
                                    s + 1 < l,
                            ;
                        }
                    }
                }
                let ch = accents[new_index];
                self.state = State::AccentActive { letter, accents, selected_index: new_index, press_time_ms, trigger: original };
                let mut actions: Vec<Action> = Vec::new();
                actions.push(Action::UpdateSelection { index: new_index, ch });
                let r = KeyResult::suppressed(actions);
                proof {
                    assert(r.actions_view() =~= seq![ActionView::UpdateSelection { index: new_index as int, ch }]);
                }
                r
            },
            State::Idle => {
                self.state = State::Idle;
                let r = KeyResult::pass_through();
                proof {
                    assert(r.actions_view() =~= Seq::<ActionView>::empty());
                }
                r
            },
        }
    }

    fn handle_letter_up(&mut self, letter: LetterKey, time_ms: u64) -> (r: KeyResult)
        ensures
            final(self).current_settings() == old(self).current_settings(),
            final(self).picker() == letter_up_step(old(self).picker(), old(self).current_settings().input_time_ms, letter, time_ms).state,
            r.suppress == letter_up_step(old(self).picker(), old(self).current_settings().input_time_ms, letter, time_ms).suppress,
            r.actions_view() == letter_up_step(old(self).picker(), old(self).current_settings().input_time_ms, letter, time_ms).actions,
    {
        proof {
            use_type_invariant(&*self);
        }
        let mut current = State::Idle;
        std::mem::swap(&mut current, &mut self.state);
        match current {
            State::LetterHeld { letter: held, press_time_ms } => {
                if held != letter {
                    self.state = State::LetterHeld { letter: held, press_time_ms };
                }
                let r = KeyResult::pass_through();
                proof {
                    assert(r.actions_view() =~= Seq::<ActionView>::empty());
                }
                r
            },
            State::AccentActive { letter: held, accents, selected_index, press_time_ms, trigger } => {
                if held != letter {
                    self.state = State::AccentActive { letter: held, accents, selected_index, press_time_ms, trigger };
                    let r = KeyResult::pass_through();
                    proof {
                        assert(r.actions_view() =~= Seq::<ActionView>::empty());
                    }
                    return r;
                }
                let elapsed = if time_ms >= press_time_ms {
                    time_ms - press_time_ms
                } else {
                    0
                };
                if elapsed < self.settings.input_time_ms {
                    let mut actions: Vec<Action> = Vec::new();
                    actions.push(Action::HideAccents);
                    actions.push(Action::EmitTrigger { trigger });
                    let r = KeyResult::suppressed(actions);
                    proof {
                        assert(r.actions_view() =~= seq![ActionView::HideAccents, ActionView::EmitTrigger { trigger }]);
                    }
                    r
                } else {
                    let ch = accents[selected_index];
                    let mut actions: Vec<Action> = Vec::new();
                    actions.push(Action::HideAccents);
                    actions.push(Action::EmitAccent { ch });
                    let r = KeyResult::suppressed(actions);
                    proof {
                        assert(r.actions_view() =~= seq![ActionView::HideAccents, ActionView::EmitAccent { ch }]);
                    }
                    r
                }
            },
            State::Idle => {
                let r = KeyResult::pass_through();
                proof {
                    assert(r.actions_view() =~= Seq::<ActionView>::empty());
                }
                r
            },
        }
    }
}

/// Every key event keeps a highlighted accent in range while the picker is shown.
pub proof fn lemma_steps_keep_invariant(s: PickerState, settings: Settings, vk: u32, time_ms: u64, shift_held: bool)
    requires
        s.inv(),
    ensures
        key_down_step(s, settings, vk, time_ms, shift_held).state.inv(),
        key_up_step(s, settings, vk, time_ms).state.inv(),
{
    if let Some(t) = trigger_of_vk(vk) {
        if let PickerState::AccentActive { accents, selected_index, .. } = s {
            let len = accents.len() as int;
            assert(0 <= (selected_index + len - 1) % len < len) by (nonlinear_arith)
                requires
                    len > 0,
            ;
            assert(0 <= (selected_index + 1) % len < len) by (nonlinear_arith)
                requires
                    len > 0,
            ;
        }
    }
}

/// Releasing the letter that the picker was opened for always closes the
/// picker, swallows the key, and types exactly one thing: the highlighted
/// accent after a long enough hold, the trigger key otherwise.
pub proof fn lemma_release_closes_picker(s: PickerState, input_time_ms: u64, time_ms: u64)
    requires
        s is AccentActive,
        s.inv(),
    ensures
        ({
            let st = letter_up_step(s, input_time_ms, s->AccentActive_letter, time_ms);
            &&& st.state == PickerState::Idle
            &&& st.suppress
            &&& st.actions.len() == 2
            &&& st.actions[0] == ActionView::HideAccents
            &&& (st.actions[1] == ActionView::EmitAccent { ch: char_at(s->AccentActive_accents, s->AccentActive_selected_index) }
                || st.actions[1] == ActionView::EmitTrigger { trigger: s->AccentActive_trigger })
        }),
{
    if let PickerState::AccentActive { letter, accents, selected_index, press_time_ms, trigger } = s {
        let st = letter_up_step(s, input_time_ms, letter, time_ms);
        assert(st.actions.len() == 2);
    }
}

} // verus!
