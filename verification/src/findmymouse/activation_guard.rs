//! Whether the spotlight may be activated: game mode and excluded apps.
//!
//! The game mode state and the foreground application are read by the
//! caller and handed in.

use vstd::prelude::*;
use crate::findmymouse::types::Settings;
use crate::text::{chars_of, to_uppercase, uppercase_of};

verus! {

/// The outcome of an activation check.
#[derive(Debug, Clone, Copy, PartialEq, Eq, Structural)]
pub enum ActivationCheck {
    Allow,
    BlockedByGameMode,
    BlockedByExcludedApp,
}

/// `needle` occurs in `hay` at position `i`.
pub open spec fn occurs_at(hay: Seq<char>, needle: Seq<char>, i: int) -> bool {
    0 <= i && i + needle.len() <= hay.len() && hay.subrange(i, i + needle.len()) == needle
}

/// `needle` occurs somewhere in `hay` (the empty string occurs everywhere).
pub open spec fn contains_seq(hay: Seq<char>, needle: Seq<char>) -> bool {
    exists|i: int| occurs_at(hay, needle, i)
}

/// The excluded app at position `k` occurs in the foreground app's name.
pub open spec fn excluded_match(s: Settings, fg: Seq<char>, k: int) -> bool {
    contains_seq(uppercase_of(fg), s.excluded_apps@[k]@)
}

/// The check: game mode first (when the settings forbid it), then the
/// excluded apps, each looked for in the upper-cased foreground app name.
pub open spec fn activation_check(s: Settings, game_mode: bool, fg: Seq<char>) -> ActivationCheck {
    if s.do_not_activate_on_game_mode && game_mode {
        ActivationCheck::BlockedByGameMode
    } else if s.excluded_apps@.len() > 0 && fg.len() > 0 && exists|k: int|
        0 <= k < s.excluded_apps@.len() && #[trigger] excluded_match(s, fg, k) {
        ActivationCheck::BlockedByExcludedApp
    } else {
        ActivationCheck::Allow
    }
}

/// Whether `needle` occurs in `hay`.
pub fn contains_chars(hay: &Vec<char>, needle: &Vec<char>) -> (b: bool)
    ensures
        b == contains_seq(hay@, needle@),
{
    if needle.len() == 0 {
        proof {
            assert(hay@.subrange(0, 0) =~= needle@);
            assert(occurs_at(hay@, needle@, 0));
        }
        return true;
    }
    if needle.len() > hay.len() {
        proof {
            assert forall|i: int| !occurs_at(hay@, needle@, i) by {}
        }
        return false;
    }
    let last = hay.len() - needle.len();
    let mut i: usize = 0;
    while i <= last
        invariant
            0 < needle@.len() <= hay@.len() <= usize::MAX,
            last == hay@.len() - needle@.len(),
            i <= last + 1,
            forall|j: int| 0 <= j < i ==> !occurs_at(hay@, needle@, j),
        decreases last + 1 - i,
    {
        let mut k: usize = 0;
        while k < needle.len() && hay[i + k] == needle[k]
            invariant
                0 < needle@.len() <= hay@.len() <= usize::MAX,
                i <= last,
                last == hay@.len() - needle@.len(),
                k <= needle@.len(),
                forall|m: int| 0 <= m < k ==> hay@[i + m] == needle@[m],
            decreases needle@.len() - k,
        {
            k = k + 1;
        }
        if k == needle.len() {
            proof {
                assert(hay@.subrange(i as int, i + needle@.len()) =~= needle@);
                assert(occurs_at(hay@, needle@, i as int));
            }
            return true;
        }
        proof {
            assert(hay@.subrange(i as int, i + needle@.len())[k as int] != needle@[k as int]);
        }
        i = i + 1;
    }
    proof {
        assert forall|j: int| !occurs_at(hay@, needle@, j) by {
            if 0 <= j && j + needle@.len() <= hay@.len() {
                assert(j < i);
            }
        }
    }
    false
}

/// Whether find-my-mouse may activate, given whether game mode is on and
/// the foreground application's name.
pub fn can_activate(settings: &Settings, is_game_mode: bool, foreground_app: &str) -> (c: ActivationCheck)
    ensures
        c == activation_check(*settings, is_game_mode, foreground_app@),
{
    if settings.do_not_activate_on_game_mode && is_game_mode {
        return ActivationCheck::BlockedByGameMode;
    }
    let fg = chars_of(foreground_app);
    if settings.excluded_apps.len() > 0 && fg.len() > 0 {
        let app_upper = to_uppercase(foreground_app);
        let hay = chars_of(app_upper.as_str());
        let mut k: usize = 0;
        while k < settings.excluded_apps.len()
            invariant
                k <= settings.excluded_apps@.len(),
                settings.excluded_apps@.len() > 0,
                foreground_app@.len() > 0,
                !(settings.do_not_activate_on_game_mode && is_game_mode),
                hay@ == uppercase_of(foreground_app@),
                forall|j: int| 0 <= j < k ==> !#[trigger] excluded_match(*settings, foreground_app@, j),
            decreases settings.excluded_apps@.len() - k,
        {
            let needle = chars_of(settings.excluded_apps[k].as_str());
            if contains_chars(&hay, &needle) {
                proof {
                    assert(excluded_match(*settings, foreground_app@, k as int));
                }
                return ActivationCheck::BlockedByExcludedApp;
            }
            proof {
                assert(!excluded_match(*settings, foreground_app@, k as int));
            }
            k = k + 1;
        }
    }
    ActivationCheck::Allow
}

} // verus!
