use vstd::prelude::*;
use crate::number::{parse_u64, parsed_u64};
use crate::text::{chars_of, piece, piece_at, replace, replaced, trim, trimmed};

verus! {

/// The name of an Android device: `<product> <model> (<device>)`, each part
/// trimmed.
pub open spec fn android_device_name(product: Seq<char>, model: Seq<char>, device: Seq<char>) -> Seq<
    char,
> {
    trimmed(product) + " "@ + trimmed(model) + " ("@ + trimmed(device) + ")"@
}

/// Names an Android device from the outputs of `getprop ro.product.name`,
/// `getprop ro.product.model` and `getprop ro.product.device`.
pub fn device_android(product: &str, model: &str, device: &str) -> (r: String)
    ensures
        r@ == android_device_name(product@, model@, device@),
{
    let mut out = trim(product);
    out.append(" ");
    out.append(trim(model).as_str());
    out.append(" (");
    out.append(trim(device).as_str());
    out.append(")");
    out
}

/// `raw` trimmed and with any newline left inside taken out.
pub open spec fn one_line(raw: Seq<char>) -> Seq<char> {
    replaced(trimmed(raw), "\n"@, ""@)
}

/// The device name of a DMI product name or device-tree model text.
pub fn device_model(raw: &str) -> (r: String)
    ensures
        r@ == one_line(raw@),
{
    proof {
        reveal_strlit("\n");
    }
    let t = trim(raw);
    replace(t.as_str(), "\n", "")
}

/// The host name of an `/etc/hostname` text or of the output of `hostname`.
pub fn hostname(raw: &str) -> (r: String)
    ensures
        r@ == trimmed(raw@),
{
    trim(raw)
}

/// The kernel release of a `/proc/sys/kernel/osrelease` text.
pub fn kernel(osrelease: &str) -> (r: String)
    ensures
        r@ == one_line(osrelease@),
{
    device_model(osrelease)
}

/// What is shown for an environment variable `var` that is not set.
pub open spec fn unset_message(var: Seq<char>) -> Seq<char> {
    "N/A (could not read $"@ + var + ", are you sure it's set?)"@
}

/// The value of the environment variable `var` where it is set, or a
/// message that says it could not be read.
pub fn env(var: &str, value: Option<String>) -> (r: String)
    ensures
        r@ == match value {
            Some(v) => v@,
            None => unset_message(var@),
        },
{
    match value {
        Some(v) => v,
        None => {
            let mut out = String::from_str("N/A (could not read $");
            out.append(var);
            out.append(", are you sure it's set?)");
            out
        },
    }
}

/// The whole seconds of a `/proc/uptime` text: the digits before its first
/// `.`, read as a number.
pub open spec fn uptime_seconds_of(raw: Seq<char>) -> Option<u64> {
    match piece_at(raw, '.', 0) {
        Some(p) => parsed_u64(p),
        None => None,
    }
}

/// Reads the whole seconds of a `/proc/uptime` text.
pub fn uptime_seconds(raw: &str) -> (r: Option<u64>)
    ensures
        r == uptime_seconds_of(raw@),
{
    match piece(raw, '.', 0) {
        Some(p) => parse_u64(&chars_of(p.as_str())),
        None => None,
    }
}

} // verus!
