//! The window around the tabs: which one is shown, what the keyboard does, the
//! short messages and the theme.

use crate::text::same;
use vstd::prelude::*;

verus! {

// ---------------- tabs and keys ----------------

/// Tab indices, so the nav, the keyboard shortcuts and the router agree.
pub const TAB_DOWNLOAD: usize = 0;

pub const TAB_CONVERT: usize = 1;

pub const TAB_HISTORY: usize = 2;

pub const TAB_SETUP: usize = 3;

pub const TAB_INFO: usize = 4;

/// The keys that matter and went down in a frame.
#[derive(Clone, Copy, Debug)]
pub struct Keys {
    /// The command modifier is held.
    pub command: bool,
    /// The tab whose number key went down, the first where there are several.
    pub tab: Option<usize>,
    pub enter: bool,
    pub escape: bool,
}

/// What the keyboard asks for.
#[derive(Clone, Copy, PartialEq, Eq, Structural, Debug)]
pub enum Action {
    Nothing,
    Tab(usize),
    StartDownload,
    StartConvert,
    /// Stop the download, and the conversion, where it says so.
    Stop(bool, bool),
}

/// What the keyboard asks for: with the command key a tab or the start of the
/// visible one, Esc to stop whatever is running. A modal owns the keyboard
/// while it is up, so nothing is read then - Esc there means "close the
/// dialog", not "cancel my download".
pub open spec fn action_of(k: Keys, modal: bool, tab: usize, dl_busy: bool, cv_busy: bool) -> Action {
    if modal {
        Action::Nothing
    } else if k.command && k.tab is Some {
        Action::Tab(k.tab->0)
    } else if k.command && k.enter {
        if tab == TAB_DOWNLOAD {
            Action::StartDownload
        } else if tab == TAB_CONVERT {
            Action::StartConvert
        } else {
            Action::Nothing
        }
    } else if k.escape {
        Action::Stop(dl_busy, cv_busy)
    } else {
        Action::Nothing
    }
}

/// What the keyboard asks for.
pub fn handle_shortcuts(k: Keys, modal: bool, tab: usize, dl_busy: bool, cv_busy: bool) -> (r: Action)
    ensures
        r == action_of(k, modal, tab, dl_busy, cv_busy),
{
    if modal {
        return Action::Nothing;
    }
    if k.command {
        if let Some(t) = k.tab {
            return Action::Tab(t);
        }
        if k.enter {
            return if tab == TAB_DOWNLOAD {
                Action::StartDownload
            } else if tab == TAB_CONVERT {
                Action::StartConvert
            } else {
                Action::Nothing
            };
        }
    }
    if k.escape {
        Action::Stop(dl_busy, cv_busy)
    } else {
        Action::Nothing
    }
}

// ---------------- short messages ----------------

/// How long a short message is shown, in milliseconds.
pub const TOAST_MILLIS: u64 = 3000;

/// A short message at the edge of the window.
#[derive(Debug)]
pub struct Toast {
    pub msg: String,
    pub error: bool,
    /// When it goes, in milliseconds.
    pub until: u64,
}

/// A short message that is shown from now on.
pub fn new_toast(msg: &str, error: bool, now: u64) -> (r: Toast)
    ensures
        r.msg@ == msg@,
        r.error == error,
        r.until == (if now + TOAST_MILLIS > u64::MAX {
            u64::MAX as int
        } else {
            now + TOAST_MILLIS
        }),
{
    let until: u64 = if now > u64::MAX - TOAST_MILLIS {
        u64::MAX
    } else {
        now + TOAST_MILLIS
    };
    Toast { msg: msg.to_owned(), error, until }
}

/// The messages that are still shown.
pub open spec fn still_shown(s: Seq<Toast>, now: u64) -> Seq<Toast>
    decreases s.len(),
{
    if s.len() == 0 {
        seq![]
    } else if s.last().until > now {
        still_shown(s.drop_last(), now).push(s.last())
    } else {
        still_shown(s.drop_last(), now)
    }
}

/// Takes the messages away whose time is over.
pub fn drop_expired(toasts: &mut Vec<Toast>, now: u64)
    ensures
        final(toasts)@ == still_shown(old(toasts)@, now),
{
    let ghost all = toasts@;
    let n = toasts.len();
    let mut seen: usize = 0;
    let mut i: usize = 0;
    assert(all.take(0) =~= Seq::<Toast>::empty());
    assert(toasts@ =~= still_shown(all.take(0), now) + all.skip(0));
    while seen < n
        invariant
            n == all.len(),
            seen <= n,
            i <= seen,
            i == still_shown(all.take(seen as int), now).len(),
            toasts@ == still_shown(all.take(seen as int), now) + all.skip(seen as int),
        decreases n - seen,
    {
        let ghost kept = still_shown(all.take(seen as int), now);
        assert(all.take(seen + 1).drop_last() =~= all.take(seen as int));
        assert(all.take(seen + 1).last() == all[seen as int]);
        assert(toasts@[i as int] == all[seen as int]);
        if toasts[i].until > now {
            assert(toasts@ =~= kept.push(all[seen as int]) + all.skip(seen + 1));
            i += 1;
        } else {
            let _ = toasts.remove(i);
            assert(toasts@ =~= kept + all.skip(seen + 1));
        }
        seen += 1;
    }
    assert(all.take(n as int) =~= all);
    assert(toasts@ =~= still_shown(all, now));
}

// ---------------- the theme ----------------

/// Everything but the light theme is dark.
pub open spec fn dark_theme(theme: Seq<char>) -> bool {
    theme != "light"@
}

/// The theme that the button switches to.
pub open spec fn other_theme(theme: Seq<char>) -> Seq<char> {
    if dark_theme(theme) {
        "light"@
    } else {
        "dark"@
    }
}

/// "dark" or "light"; anything else is read as dark.
pub fn is_dark(theme: &str) -> (r: bool)
    ensures
        r == dark_theme(theme@),
{
    !same(theme, "light")
}

/// The theme that the toggle switches to.
pub fn next_theme(theme: &str) -> (r: &'static str)
    ensures
        r@ == other_theme(theme@),
{
    if is_dark(theme) {
        "light"
    } else {
        "dark"
    }
}

// ---------------- laws ----------------

/// A dialog on screen owns the keyboard.
pub proof fn a_dialog_owns_the_keyboard(k: Keys, tab: usize, dl_busy: bool, cv_busy: bool)
    ensures
        action_of(k, true, tab, dl_busy, cv_busy) == Action::Nothing,
{
}

/// Command and a number show that tab, command and enter start what is on the
/// tab that is shown, and escape stops what is at work.
pub proof fn keys_do_what_they_stand_for(k: Keys, tab: usize, dl_busy: bool, cv_busy: bool)
    ensures
        ({
            let a = action_of(k, false, tab, dl_busy, cv_busy);
            &&& k.command && k.tab is Some ==> a == Action::Tab(k.tab->0)
            &&& k.command && k.tab is None && k.enter && tab == 0 ==> a == Action::StartDownload
            &&& k.command && k.tab is None && k.enter && tab == 1 ==> a == Action::StartConvert
            &&& k.command && k.tab is None && k.enter && tab > 1 ==> a == Action::Nothing
            &&& !k.command && k.escape ==> a == Action::Stop(dl_busy, cv_busy)
            &&& k.tab is None && !k.enter && k.escape ==> a == Action::Stop(dl_busy, cv_busy)
            &&& !k.command && !k.escape ==> a == Action::Nothing
        }),
{
}

/// A message is shown until its time has come, and no longer.
pub proof fn a_message_is_shown_until_its_time(s: Seq<Toast>, now: u64)
    ensures
        still_shown(s, now) == s.filter(|t: Toast| now < t.until),
        TOAST_MILLIS == 3000,
    decreases s.len(),
{
    reveal(Seq::filter);
    if s.len() > 0 {
        a_message_is_shown_until_its_time(s.drop_last(), now);
    }
}

/// The button goes from dark to light and from light to dark.
pub proof fn the_button_switches_between_dark_and_light(theme: Seq<char>)
    ensures
        dark_theme(theme) != dark_theme(other_theme(theme)),
        !dark_theme("light"@) && dark_theme("dark"@),
        theme == "light"@ ==> other_theme(theme) == "dark"@,
        theme != "light"@ ==> other_theme(theme) == "light"@,
{
    reveal_strlit("light");
    reveal_strlit("dark");
    assert("light"@.len() == 5 && "dark"@.len() == 4);
}

} // verus!
