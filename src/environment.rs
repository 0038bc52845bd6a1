use vstd::prelude::*;
use crate::text::{lines_of, pieces, same_text, split, views};

verus! {

/// What is shown where no desktop environment is named.
pub const NOT_AVAILABLE: &'static str = "N/A";

/// The desktop environment: the first of the session variables that is set
/// (`XDG_DESKTOP_SESSION`, `XDG_CURRENT_DESKTOP`, `DESKTOP_SESSION`), or `N/A`.
pub fn de(
    xdg_desktop_session: Option<String>,
    xdg_current_desktop: Option<String>,
    desktop_session: Option<String>,
) -> (r: String)
    ensures
        r@ == match (xdg_desktop_session, xdg_current_desktop, desktop_session) {
            (Some(a), _, _) => a@,
            (None, Some(b), _) => b@,
            (None, None, Some(c)) => c@,
            (None, None, None) => NOT_AVAILABLE@,
        },
{
    match xdg_desktop_session {
        Some(a) => a,
        None => match xdg_current_desktop {
            Some(b) => b,
            None => match desktop_session {
                Some(c) => c,
                None => String::from_str(NOT_AVAILABLE),
            },
        },
    }
}

/// The window manager that an `.xinitrc` text starts: the last word (after
/// the last space) of its last line.
pub open spec fn started_wm(xinitrc: Seq<char>) -> Option<Seq<char>> {
    let ls = lines_of(xinitrc);
    if ls.len() == 0 {
        None
    } else {
        Some(pieces(ls.last(), ' ').last())
    }
}

/// Reads the window manager out of an `.xinitrc` text; `None` where it has
/// no line.
pub fn wm(xinitrc: &str) -> (r: Option<String>)
    ensures
        match r {
            Some(v) => started_wm(xinitrc@) == Some(v@),
            None => started_wm(xinitrc@) is None,
        },
{
    let ls = split(xinitrc, '\n');
    proof {
        crate::text::lemma_pieces_nonempty(xinitrc@, '\n');
    }
    let n = ls.len();
    let last: usize = if ls[n - 1].as_str().unicode_len() == 0 {
        if n == 1 {
            return None;
        }
        n - 2
    } else {
        n - 1
    };
    assert(lines_of(xinitrc@).last() == views(ls@)[last as int]);
    let words = split(ls[last].as_str(), ' ');
    proof {
        crate::text::lemma_pieces_nonempty(ls@[last as int]@, ' ');
        assert(words@.last()@ == views(words@).last());
    }
    Some(words[words.len() - 1].clone())
}

/// The user's environment: the desktop environment `de`, or where that is
/// `N/A`, the window manager `wm`.
pub fn environment(de: String, wm: Option<String>) -> (r: Option<String>)
    ensures
        de@ == NOT_AVAILABLE@ ==> r == wm,
        de@ != NOT_AVAILABLE@ ==> r == Some(de),
{
    if same_text(de.as_str(), NOT_AVAILABLE) {
        wm
    } else {
        Some(de)
    }
}

} // verus!
