use vstd::prelude::*;
use crate::text::{line, line_at, piece, piece_at, replace, replaced, trim, trimmed};

verus! {

/// The distribution name of an `os-release` text whose first line is
/// `NAME=...`: what follows the first `=` (up to a next one), without quotes.
pub open spec fn dist_name(os_release: Seq<char>) -> Option<Seq<char>> {
    match line_at(os_release, 0) {
        Some(l) => match piece_at(l, '=', 1) {
            Some(v) => Some(replaced(v, "\""@, ""@)),
            None => None,
        },
        None => None,
    }
}

/// Reads the distribution name out of an `os-release` text; `None` where its
/// first line has no `=`.
pub fn dist(os_release: &str) -> (r: Option<String>)
    ensures
        match r {
            Some(v) => dist_name(os_release@) == Some(v@),
            None => dist_name(os_release@) is None,
        },
{
    proof {
        reveal_strlit("\"");
    }
    match line(os_release, 0) {
        Some(l) => match piece(l.as_str(), '=', 1) {
            Some(v) => Some(replace(v.as_str(), "\"", "")),
            None => None,
        },
        None => None,
    }
}

/// The name of an Android system: `Android <release> (<flavor>)`, each part
/// trimmed.
pub open spec fn android_name(release: Seq<char>, flavor: Seq<char>) -> Seq<char> {
    "Android "@ + trimmed(release) + " ("@ + trimmed(flavor) + ")"@
}

/// Names an Android system from the outputs of `getprop ro.build.version.release`
/// and `getprop ro.build.flavor`.
pub fn distro_android(release: &str, flavor: &str) -> (r: String)
    ensures
        r@ == android_name(release@, flavor@),
{
    let mut out = String::from_str("Android ");
    out.append(trim(release).as_str());
    out.append(" (");
    out.append(trim(flavor).as_str());
    out.append(")");
    out
}

} // verus!
