//! The click highlights from button press through fade-out, and the
//! always-on highlight that follows the cursor while no button is held.
//!
//! Opacities are left to the renderer: a highlight is visible until it has
//! expired, which is when its opacity reaches zero.

use vstd::prelude::*;
use crate::highlighter::types::{expired, Color, HighlightPoint, MouseButton, Settings};

verus! {

/// Clicks of the left button are highlighted: its color is not transparent
/// and no spotlight replaces the click highlights.
pub open spec fn left_enabled(s: Settings) -> bool {
    s.left_button_color.a != 0 && !(s.spotlight_mode && s.always_color.a != 0)
}

pub open spec fn right_enabled(s: Settings) -> bool {
    s.right_button_color.a != 0 && !(s.spotlight_mode && s.always_color.a != 0)
}

pub open spec fn always_enabled(s: Settings) -> bool {
    s.always_color.a != 0
}

/// The highlight is the held one of the button: for it and not fading.
pub open spec fn is_held_of(h: HighlightPoint, button: MouseButton) -> bool {
    h.button == button && h.fade_started_at is None
}

/// The position of the last highlight held for the button, or -1.
pub open spec fn last_held(hs: Seq<HighlightPoint>, button: MouseButton) -> int
    decreases hs.len(),
{
    if hs.len() == 0 {
        -1
    } else if is_held_of(hs.last(), button) {
        hs.len() - 1
    } else {
        last_held(hs.drop_last(), button)
    }
}

/// The highlights after the last held one of the button starts fading.
pub open spec fn start_fade(hs: Seq<HighlightPoint>, button: MouseButton, ts: u64) -> Seq<HighlightPoint> {
    let i = last_held(hs, button);
    if i >= 0 {
        hs.update(i, HighlightPoint { fade_started_at: Some(ts), ..hs[i] })
    } else {
        hs
    }
}

/// The highlights after the last held one of the button moves to a point.
pub open spec fn move_held(hs: Seq<HighlightPoint>, button: MouseButton, x: i32, y: i32) -> Seq<HighlightPoint> {
    let i = last_held(hs, button);
    if i >= 0 {
        hs.update(i, HighlightPoint { x, y, ..hs[i] })
    } else {
        hs
    }
}

/// The highlights that have not expired, in order.
pub open spec fn unexpired(hs: Seq<HighlightPoint>, now: u64, delay: u64, duration: u64) -> Seq<HighlightPoint>
    decreases hs.len(),
{
    if hs.len() == 0 {
        Seq::empty()
    } else {
        let prev = unexpired(hs.drop_last(), now, delay, duration);
        if expired(hs.last(), now, delay, duration) {
            prev
        } else {
            prev.push(hs.last())
        }
    }
}

proof fn lemma_last_held_bounds(hs: Seq<HighlightPoint>, button: MouseButton)
    ensures
        -1 <= last_held(hs, button) < hs.len(),
        last_held(hs, button) >= 0 ==> is_held_of(hs[last_held(hs, button)], button),
    decreases hs.len(),
{
    if hs.len() > 0 && !is_held_of(hs.last(), button) {
        lemma_last_held_bounds(hs.drop_last(), button);
    }
}

/// Highlights of mouse clicks and of the cursor.
pub struct HighlightManager {
    settings: Settings,
    highlights: Vec<HighlightPoint>,
    left_pressed: bool,
    right_pressed: bool,
    cursor_x: i32,
    cursor_y: i32,
}

/// The position of the last highlight held for the button.
fn find_last_held(hs: &Vec<HighlightPoint>, button: MouseButton) -> (r: Option<usize>)
    ensures
        match r {
            Some(i) => i == last_held(hs@, button),
            None => last_held(hs@, button) == -1,
        },
{
    let mut i: usize = hs.len();
    proof {
        assert(hs@.take(i as int) =~= hs@);
    }
    while i > 0
        invariant
            i <= hs@.len(),
            last_held(hs@, button) == last_held(hs@.take(i as int), button),
        decreases i,
    {
        proof {
            assert(hs@.take(i as int).drop_last() =~= hs@.take(i - 1));
            assert(hs@.take(i as int).last() == hs@[i - 1]);
        }
        let h = hs[i - 1];
        if h.button == button && h.fade_started_at.is_none() {
            return Some(i - 1);
        }
        i = i - 1;
    }
    None
}

impl HighlightManager {
    pub closed spec fn spec_settings(self) -> Settings {
        self.settings
    }

    /// The click highlights, oldest first.
    pub closed spec fn spec_highlights(self) -> Seq<HighlightPoint> {
        self.highlights@
    }

    pub closed spec fn spec_left_pressed(self) -> bool {
        self.left_pressed
    }

    pub closed spec fn spec_right_pressed(self) -> bool {
        self.right_pressed
    }

    pub closed spec fn spec_cursor(self) -> (i32, i32) {
        (self.cursor_x, self.cursor_y)
    }

    pub fn new(settings: Settings) -> (m: Self)
        ensures
            m.spec_settings() == settings,
            m.spec_highlights().len() == 0,
            !m.spec_left_pressed(),
            !m.spec_right_pressed(),
            m.spec_cursor() == (0i32, 0i32),
    {
        HighlightManager {
            settings,
            highlights: Vec::new(),
            left_pressed: false,
            right_pressed: false,
            cursor_x: 0,
            cursor_y: 0,
        }
    }

    /// Replaces the settings; the highlights stay.
    pub fn update_settings(&mut self, settings: Settings)
        ensures
            final(self).spec_settings() == settings,
            final(self).spec_highlights() == old(self).spec_highlights(),
            final(self).spec_left_pressed() == old(self).spec_left_pressed(),
            final(self).spec_right_pressed() == old(self).spec_right_pressed(),
            final(self).spec_cursor() == old(self).spec_cursor(),
    {
        self.settings = settings;
    }

    pub fn settings(&self) -> (s: &Settings)
        ensures
            *s == self.spec_settings(),
    {
        &self.settings
    }

    /// Whether left clicks are highlighted.
    pub fn left_enabled(&self) -> (b: bool)
        ensures
            b == left_enabled(self.spec_settings()),
    {
        !self.settings.left_button_color.is_disabled() && !(self.settings.spotlight_mode
            && !self.settings.always_color.is_disabled())
    }

    /// Whether right clicks are highlighted.
    pub fn right_enabled(&self) -> (b: bool)
        ensures
            b == right_enabled(self.spec_settings()),
    {
        !self.settings.right_button_color.is_disabled() && !(self.settings.spotlight_mode
            && !self.settings.always_color.is_disabled())
    }

    /// Whether the always-on cursor highlight is enabled.
    pub fn always_enabled(&self) -> (b: bool)
        ensures
            b == always_enabled(self.spec_settings()),
    {
        !self.settings.always_color.is_disabled()
    }

    /// The last held highlight of the button starts fading at `timestamp`.
    fn start_fade_for_button(&mut self, button: MouseButton, timestamp: u64)
        ensures
            final(self).spec_highlights() == start_fade(old(self).spec_highlights(), button, timestamp),
            final(self).spec_settings() == old(self).spec_settings(),
            final(self).spec_left_pressed() == old(self).spec_left_pressed(),
            final(self).spec_right_pressed() == old(self).spec_right_pressed(),
            final(self).spec_cursor() == old(self).spec_cursor(),
    {
        proof {
            lemma_last_held_bounds(self.highlights@, button);
        }
        match find_last_held(&self.highlights, button) {
            Some(i) => {
                let h = self.highlights[i];
                let faded = HighlightPoint { fade_started_at: Some(timestamp), ..h };
                let _ = self.highlights.remove(i);
                self.highlights.insert(i, faded);
            },
            None => {},
        }
    }

    /// The last held highlight of the button follows the cursor.
    fn move_held_for_button(&mut self, button: MouseButton, x: i32, y: i32)
        ensures
            final(self).spec_highlights() == move_held(old(self).spec_highlights(), button, x, y),
            final(self).spec_settings() == old(self).spec_settings(),
            final(self).spec_left_pressed() == old(self).spec_left_pressed(),
            final(self).spec_right_pressed() == old(self).spec_right_pressed(),
            final(self).spec_cursor() == old(self).spec_cursor(),
    {
        proof {
            lemma_last_held_bounds(self.highlights@, button);
        }
        match find_last_held(&self.highlights, button) {
            Some(i) => {
                let h = self.highlights[i];
                let moved = HighlightPoint { x, y, ..h };
                let _ = self.highlights.remove(i);
                self.highlights.insert(i, moved);
            },
            None => {},
        }
    }

    /// A button goes down: when its highlights are enabled, a highlight in
    /// its color appears at the point (a highlight still held from a missed
    /// release starts fading first).
    pub fn on_mouse_down(&mut self, button: MouseButton, x: i32, y: i32, timestamp: u64)
        ensures
            final(self).spec_settings() == old(self).spec_settings(),
            final(self).spec_cursor() == old(self).spec_cursor(),
            ({
                let s = old(self).spec_settings();
                let (enabled, color, already) = match button {
                    MouseButton::Left => (left_enabled(s), s.left_button_color, old(self).spec_left_pressed()),
                    MouseButton::Right => (right_enabled(s), s.right_button_color, old(self).spec_right_pressed()),
                };
                if !enabled {
                    &&& final(self).spec_highlights() == old(self).spec_highlights()
                    &&& final(self).spec_left_pressed() == old(self).spec_left_pressed()
                    &&& final(self).spec_right_pressed() == old(self).spec_right_pressed()
                } else {
                    let hs = if already {
                        start_fade(old(self).spec_highlights(), button, timestamp)
                    } else {
                        old(self).spec_highlights()
                    };
                    &&& final(self).spec_highlights() == hs.push(
                        HighlightPoint { x, y, button, created_at: timestamp, fade_started_at: None, color },
                    )
                    &&& final(self).spec_left_pressed() == (old(self).spec_left_pressed() || button
                        == MouseButton::Left)
                    &&& final(self).spec_right_pressed() == (old(self).spec_right_pressed() || button
                        == MouseButton::Right)
                }
            }),
    {
        let left_on = self.left_enabled();
        let right_on = self.right_enabled();
        let (enabled, color, already_pressed) = match button {
            MouseButton::Left => (left_on, self.settings.left_button_color, self.left_pressed),
            MouseButton::Right => (right_on, self.settings.right_button_color, self.right_pressed),
        };
        if !enabled {
            return ;
        }
        if already_pressed {
            self.start_fade_for_button(button, timestamp);
        }
        match button {
            MouseButton::Left => {
                self.left_pressed = true;
            },
            MouseButton::Right => {
                self.right_pressed = true;
            },
        }
        self.highlights.push(HighlightPoint { x, y, button, created_at: timestamp, fade_started_at: None, color });
    }

    /// A button is released: its held highlight starts fading.
    pub fn on_mouse_up(&mut self, button: MouseButton, timestamp: u64)
        ensures
            final(self).spec_settings() == old(self).spec_settings(),
            final(self).spec_cursor() == old(self).spec_cursor(),
            ({
                let pressed = match button {
                    MouseButton::Left => old(self).spec_left_pressed(),
                    MouseButton::Right => old(self).spec_right_pressed(),
                };
                if pressed {
                    &&& final(self).spec_highlights() == start_fade(old(self).spec_highlights(), button, timestamp)
                    &&& final(self).spec_left_pressed() == (old(self).spec_left_pressed() && button
                        != MouseButton::Left)
                    &&& final(self).spec_right_pressed() == (old(self).spec_right_pressed() && button
                        != MouseButton::Right)
                } else {
                    &&& final(self).spec_highlights() == old(self).spec_highlights()
                    &&& final(self).spec_left_pressed() == old(self).spec_left_pressed()
                    &&& final(self).spec_right_pressed() == old(self).spec_right_pressed()
                }
            }),
    {
        match button {
            MouseButton::Left => {
                if self.left_pressed {
                    self.left_pressed = false;
                    self.start_fade_for_button(button, timestamp);
                }
            },
            MouseButton::Right => {
                if self.right_pressed {
                    self.right_pressed = false;
                    self.start_fade_for_button(button, timestamp);
                }
            },
        }
    }

    /// The cursor moves: held highlights follow it.
    pub fn on_mouse_move(&mut self, x: i32, y: i32)
        ensures
            final(self).spec_settings() == old(self).spec_settings(),
            final(self).spec_cursor() == (x, y),
            final(self).spec_left_pressed() == old(self).spec_left_pressed(),
            final(self).spec_right_pressed() == old(self).spec_right_pressed(),
            ({
                let hs = old(self).spec_highlights();
                let hs1 = if old(self).spec_left_pressed() {
                    move_held(hs, MouseButton::Left, x, y)
                } else {
                    hs
                };
                final(self).spec_highlights() == if old(self).spec_right_pressed() {
                    move_held(hs1, MouseButton::Right, x, y)
                } else {
                    hs1
                }
            }),
    {
        self.cursor_x = x;
        self.cursor_y = y;
        if self.left_pressed {
            self.move_held_for_button(MouseButton::Left, x, y);
        }
        if self.right_pressed {
            self.move_held_for_button(MouseButton::Right, x, y);
        }
    }

    /// The highlights that are still visible at `now_ms`, oldest first.
    fn unexpired_highlights(&self, now_ms: u64) -> (v: Vec<HighlightPoint>)
        ensures
            v@ == unexpired(
                self.spec_highlights(),
                now_ms,
                self.spec_settings().fade_delay_ms as u64,
                self.spec_settings().fade_duration_ms as u64,
            ),
    {
        let fd = self.settings.fade_delay_ms as u64;
        let dur = self.settings.fade_duration_ms as u64;
        let ghost hs = self.highlights@;
        let mut v: Vec<HighlightPoint> = Vec::new();
        let mut i: usize = 0;
        while i < self.highlights.len()
            invariant
                i <= hs.len(),
                hs == self.highlights@,
                fd == self.settings.fade_delay_ms as u64,
                dur == self.settings.fade_duration_ms as u64,
                v@ == unexpired(hs.take(i as int), now_ms, fd, dur),
            decreases hs.len() - i,
        {
            proof {
                assert(hs.take(i + 1).drop_last() =~= hs.take(i as int));
                assert(hs.take(i + 1).last() == hs[i as int]);
            }
            let h = self.highlights[i];
            if !h.is_expired(now_ms, fd, dur) {
                v.push(h);
            }
            i = i + 1;
        }
        proof {
            assert(hs.take(i as int) =~= hs);
        }
        v
    }

    /// Drops the highlights that have faded out.
    pub fn cleanup(&mut self, now_ms: u64)
        ensures
            final(self).spec_highlights() == unexpired(
                old(self).spec_highlights(),
                now_ms,
                old(self).spec_settings().fade_delay_ms as u64,
                old(self).spec_settings().fade_duration_ms as u64,
            ),
            final(self).spec_settings() == old(self).spec_settings(),
            final(self).spec_left_pressed() == old(self).spec_left_pressed(),
            final(self).spec_right_pressed() == old(self).spec_right_pressed(),
            final(self).spec_cursor() == old(self).spec_cursor(),
    {
        self.highlights = self.unexpired_highlights(now_ms);
    }

    /// The always-on highlight (cursor position and color) while it is
    /// enabled and no button is held.
    pub fn always_highlight(&self) -> (r: Option<(i32, i32, Color)>)
        ensures
            r == (if always_enabled(self.spec_settings()) && !self.spec_left_pressed()
                && !self.spec_right_pressed() {
                Some((self.spec_cursor().0, self.spec_cursor().1, self.spec_settings().always_color))
            } else {
                None
            }),
    {
        if self.always_enabled() && !self.left_pressed && !self.right_pressed {
            Some((self.cursor_x, self.cursor_y, self.settings.always_color))
        } else {
            None
        }
    }

    /// The click highlights still visible at `now_ms`, oldest first.
    pub fn visible_click_highlights(&self, now_ms: u64) -> (v: Vec<HighlightPoint>)
        ensures
            v@ == unexpired(
                self.spec_highlights(),
                now_ms,
                self.spec_settings().fade_delay_ms as u64,
                self.spec_settings().fade_duration_ms as u64,
            ),
    {
        self.unexpired_highlights(now_ms)
    }

    /// Whether anything is visible: the always-on highlight, or a click
    /// highlight that has not faded out.
    pub fn has_visible_content(&self, now_ms: u64) -> (b: bool)
        ensures
            b == (always_enabled(self.spec_settings()) && !self.spec_left_pressed() && !self.spec_right_pressed()
                || unexpired(
                self.spec_highlights(),
                now_ms,
                self.spec_settings().fade_delay_ms as u64,
                self.spec_settings().fade_duration_ms as u64,
            ).len() > 0),
    {
        if !self.settings.always_color.is_disabled() && !self.left_pressed && !self.right_pressed {
            return true;
        }
        self.unexpired_highlights(now_ms).len() > 0
    }

    /// The number of click highlights tracked.
    pub fn highlight_count(&self) -> (n: usize)
        ensures
            n == self.spec_highlights().len(),
    {
        self.highlights.len()
    }
}

/// Releasing a button after pressing it (with the button enabled and not
/// already held) leaves one more highlight than before, fading from the
/// release time, and the button no longer held.
pub proof fn lemma_press_release(hs: Seq<HighlightPoint>, h: HighlightPoint, ts: u64)
    requires
        h.fade_started_at is None,
    ensures
        start_fade(hs.push(h), h.button, ts).len() == hs.len() + 1,
        start_fade(hs.push(h), h.button, ts).last() == (HighlightPoint { fade_started_at: Some(ts), ..h }),
        start_fade(hs.push(h), h.button, ts).drop_last() == hs,
{
    let s = hs.push(h);
    assert(last_held(s, h.button) == hs.len());
    assert(start_fade(s, h.button, ts).drop_last() =~= hs);
}

} // verus!
