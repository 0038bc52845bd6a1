use vstd::prelude::*;
use crate::text::{
    has_prefix, line, line_at, piece, piece_at, replace, replaced, starts_with, trim, trimmed,
};

verus! {

/// The value on line `x` of a `/proc/cpuinfo` text: the text between the
/// line's first colon and the next one (or the line's end).
pub open spec fn cpuinfo_value(cpuinfo: Seq<char>, x: int) -> Option<Seq<char>> {
    match line_at(cpuinfo, x) {
        Some(l) => piece_at(l, ':', 1),
        None => None,
    }
}

/// Reads the value on line `x` of the `/proc/cpuinfo` text `cpuinfo`; `None`
/// where the text has no such line or the line no colon.
pub fn get(cpuinfo: &str, x: usize) -> (r: Option<String>)
    ensures
        match r {
            Some(v) => cpuinfo_value(cpuinfo@, x as int) == Some(v@),
            None => cpuinfo_value(cpuinfo@, x as int) is None,
        },
{
    match line(cpuinfo, x) {
        Some(l) => piece(l.as_str(), ':', 1),
        None => None,
    }
}

/// A processor model name without the `(TM)` and `(R)` marks, and with each
/// run of five spaces made one.
pub open spec fn cleaned_model(info: Seq<char>) -> Seq<char> {
    replaced(replaced(replaced(info, "(TM)"@, ""@), "(R)"@, ""@),
        "     "@, " "@)
}

/// Cleans a processor model name as `cleaned_model` says.
pub fn format(info: &str) -> (r: String)
    ensures
        r@ == cleaned_model(info@),
{
    proof {
        reveal_strlit("(TM)");
        reveal_strlit("(R)");
        reveal_strlit("     ");
        reveal_strlit("");
    }
    let a = replace(info, "(TM)", "");
    let b = replace(a.as_str(), "(R)", "");
    replace(b.as_str(), "     ", " ")
}

/// The processor model of line `x` of a `/proc/cpuinfo` text, cleaned and
/// trimmed.
pub open spec fn cpu_model_at(cpuinfo: Seq<char>, x: int) -> Option<Seq<char>> {
    match cpuinfo_value(cpuinfo, x) {
        Some(v) => Some(replaced(trimmed(cleaned_model(v)), "\n"@, ""@)),
        None => None,
    }
}

/// The processor model of line `x` of the `/proc/cpuinfo` text `cpuinfo`.
pub fn cpu_model(cpuinfo: &str, x: usize) -> (r: Option<String>)
    ensures
        match r {
            Some(v) => cpu_model_at(cpuinfo@, x as int) == Some(v@),
            None => cpu_model_at(cpuinfo@, x as int) is None,
        },
{
    proof {
        reveal_strlit("\n");
        reveal_strlit("");
    }
    match get(cpuinfo, x) {
        Some(v) => {
            let f = format(v.as_str());
            let t = trim(f.as_str());
            Some(replace(t.as_str(), "\n", ""))
        },
        None => None,
    }
}

/// The line of `/proc/cpuinfo` that names the processor: line 1 on a board
/// whose device-tree model begins with `Raspberry`, or, where no model can be
/// read, on Android; line 4 otherwise.
pub open spec fn model_line_of(model: Option<Seq<char>>, android: bool) -> usize {
    match model {
        Some(m) => if has_prefix(m, "Raspberry"@) {
            1
        } else {
            4
        },
        None => if android {
            1
        } else {
            4
        },
    }
}

/// Which line of `/proc/cpuinfo` names the processor, given the device-tree
/// model (where it could be read) and whether the system is Android.
pub fn model_line(model: Option<&str>, android: bool) -> (r: usize)
    ensures
        r == model_line_of(
            match model {
                Some(m) => Some(m@),
                None => None,
            },
            android,
        ),
{
    match model {
        Some(m) => if starts_with(m, "Raspberry") {
            1
        } else {
            4
        },
        None => if android {
            1
        } else {
            4
        },
    }
}

/// The processor model, from the `/proc/cpuinfo` text, the device-tree model
/// (where it could be read) and whether the system is Android.
pub fn cpu(cpuinfo: &str, model: Option<&str>, android: bool) -> (r: Option<String>)
    ensures
        match r {
            Some(v) => cpu_model_at(
                cpuinfo@,
                model_line_of(
                    match model {
                        Some(m) => Some(m@),
                        None => None,
                    },
                    android,
                ) as int,
            ) == Some(v@),
            None => cpu_model_at(
                cpuinfo@,
                model_line_of(
                    match model {
                        Some(m) => Some(m@),
                        None => None,
                    },
                    android,
                ) as int,
            ) is None,
        },
{
    cpu_model(cpuinfo, model_line(model, android))
}

} // verus!
