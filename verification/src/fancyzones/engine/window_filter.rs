//! Which windows may be snapped, decided from what the caller read about
//! the window.

use vstd::prelude::*;
use crate::findmymouse::activation_guard::{contains_chars, contains_seq};
use crate::text::{chars_of, lowercase_of, string_of, to_lowercase};

verus! {

/// Why a window is not snapped.
#[derive(Debug, Clone, Copy, PartialEq, Eq, Structural)]
pub enum RejectReason {
    Minimized,
    NotVisible,
    ToolWindow,
    NonRootWindow,
    NonProcessablePopup,
    ChildWindow,
    Excluded,
}

/// What is known of a window: its state, its style flags, its place among
/// the windows, and the name of its executable if it could be read.
#[derive(Debug)]
pub struct WindowFacts {
    pub minimized: bool,
    pub visible: bool,
    pub tool_window: bool,
    pub is_root: bool,
    pub popup: bool,
    pub thick_frame: bool,
    pub caption: bool,
    pub minimize_box: bool,
    pub maximize_box: bool,
    /// The window has an owner and the owner is visible.
    pub owner_visible: bool,
    pub exe_name: Option<String>,
}

/// An excluded app (lowercased) occurs in the lowercased executable name.
pub open spec fn excluded_at(apps: Seq<String>, exe: Seq<char>, k: int) -> bool {
    contains_seq(lowercase_of(exe), lowercase_of(apps[k]@))
}

/// The executable is excluded.
pub open spec fn is_excluded(apps: Seq<String>, exe: Option<String>) -> bool {
    apps.len() > 0 && match exe {
        Some(e) => exists|k: int| 0 <= k < apps.len() && #[trigger] excluded_at(apps, e@, k),
        None => false,
    }
}

/// The verdict on a window, the checks in order: minimized, not visible,
/// tool window, not a root window, a popup without a thick frame and a
/// caption or minimize/maximize box, a child of a visible owner (unless
/// child windows are allowed), an excluded executable.
pub open spec fn verdict(f: WindowFacts, apps: Seq<String>, allow_child: bool) -> Result<(), RejectReason> {
    if f.minimized {
        Err(RejectReason::Minimized)
    } else if !f.visible {
        Err(RejectReason::NotVisible)
    } else if f.tool_window {
        Err(RejectReason::ToolWindow)
    } else if !f.is_root {
        Err(RejectReason::NonRootWindow)
    } else if f.popup && !(f.thick_frame && (f.caption || f.minimize_box || f.maximize_box)) {
        Err(RejectReason::NonProcessablePopup)
    } else if !allow_child && f.owner_visible {
        Err(RejectReason::ChildWindow)
    } else if is_excluded(apps, f.exe_name) {
        Err(RejectReason::Excluded)
    } else {
        Ok(())
    }
}

/// Whether the executable name matches an excluded app, ignoring case.
pub fn is_excluded_app(excluded_apps: &[String], exe_name: &str) -> (b: bool)
    ensures
        b == (exists|k: int| 0 <= k < excluded_apps@.len() && #[trigger] excluded_at(excluded_apps@, exe_name@, k)),
{
    let exe_lower = to_lowercase(exe_name);
    let hay = chars_of(exe_lower.as_str());
    let mut k: usize = 0;
    while k < excluded_apps.len()
        invariant
            k <= excluded_apps@.len(),
            hay@ == lowercase_of(exe_name@),
            forall|j: int| 0 <= j < k ==> !#[trigger] excluded_at(excluded_apps@, exe_name@, j),
        decreases excluded_apps@.len() - k,
    {
        let app_lower = to_lowercase(excluded_apps[k].as_str());
        let needle = chars_of(app_lower.as_str());
        if contains_chars(&hay, &needle) {
            proof {
                assert(excluded_at(excluded_apps@, exe_name@, k as int));
            }
            return true;
        }
        proof {
            assert(!excluded_at(excluded_apps@, exe_name@, k as int));
        }
        k = k + 1;
    }
    false
}

/// Whether a window may be snapped, and if not, why.
pub fn window_verdict(facts: &WindowFacts, excluded_apps: &[String], allow_child_windows: bool) -> (r: Result<
    (),
    RejectReason,
>)
    ensures
        r == verdict(*facts, excluded_apps@, allow_child_windows),
{
    if facts.minimized {
        return Err(RejectReason::Minimized);
    }
    if !facts.visible {
        return Err(RejectReason::NotVisible);
    }
    if facts.tool_window {
        return Err(RejectReason::ToolWindow);
    }
    if !facts.is_root {
        return Err(RejectReason::NonRootWindow);
    }
    let has_minmax = facts.minimize_box || facts.maximize_box;
    if facts.popup && !(facts.thick_frame && (facts.caption || has_minmax)) {
        return Err(RejectReason::NonProcessablePopup);
    }
    if !allow_child_windows && facts.owner_visible {
        return Err(RejectReason::ChildWindow);
    }
    if excluded_apps.len() > 0 {
        match &facts.exe_name {
            Some(exe) => {
                if is_excluded_app(excluded_apps, exe.as_str()) {
                    return Err(RejectReason::Excluded);
                }
            },
            None => {},
        }
    }
    Ok(())
}

/// The last component of a Windows path: what follows the last backslash.
pub open spec fn last_component(path: Seq<char>) -> Seq<char>
    decreases path.len(),
{
    if path.len() == 0 {
        path
    } else if path.last() == '\\' {
        Seq::empty()
    } else {
        last_component(path.drop_last()).push(path.last())
    }
}

/// The file name of an executable's full path.
pub fn exe_name_of_path(path: &str) -> (name: String)
    ensures
        name@ == last_component(path@),
{
    let cs = chars_of(path);
    let mut start: usize = cs.len();
    while start > 0 && cs[start - 1] != '\\'
        invariant
            start <= cs@.len(),
            cs@ == path@,
            forall|j: int| start <= j < cs@.len() ==> cs@[j] != '\\',
        decreases start,
    {
        start = start - 1;
    }
    let mut name: Vec<char> = Vec::new();
    let mut i: usize = start;
    while i < cs.len()
        invariant
            start <= i <= cs@.len(),
            name@ == cs@.subrange(start as int, i as int),
        decreases cs@.len() - i,
    {
        name.push(cs[i]);
        i = i + 1;
        proof {
            assert(name@ =~= cs@.subrange(start as int, i as int));
        }
    }
    proof {
        lemma_last_component(cs@, start as int);
    }
    string_of(&name)
}

proof fn lemma_last_component(s: Seq<char>, start: int)
    requires
        0 <= start <= s.len(),
        start == 0 || s[start - 1] == '\\',
        forall|j: int| start <= j < s.len() ==> s[j] != '\\',
    ensures
        last_component(s) == s.subrange(start, s.len() as int),
    decreases s.len(),
{
    if s.len() == start {
        if s.len() > 0 {
            assert(s.last() == '\\');
        }
        assert(s.subrange(start, s.len() as int) =~= Seq::<char>::empty());
    } else {
        let t = s.drop_last();
        assert forall|j: int| start <= j < t.len() implies t[j] != '\\' by {
            assert(t[j] == s[j]);
        }
        if start > 0 {
            assert(t[start - 1] == s[start - 1]);
        }
        lemma_last_component(t, start);
        assert(s.subrange(start, s.len() as int) =~= t.subrange(start, t.len() as int).push(s.last()));
    }
}

} // verus!
