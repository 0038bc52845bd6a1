use vstd::prelude::*;
use crate::number::{decimal, push_decimal};
use crate::search::{contains, occurs_in};
use crate::text::{pieces, same_text, split, views};

verus! {

/// A package manager whose installed packages can be counted.
#[derive(Debug, Clone, Copy, PartialEq, Eq, Structural)]
pub enum Manager {
    Apk,
    /// Named `apt` or `dpkg`.
    Dpkg,
    Dnf,
    Eopkg,
    Flatpak,
    Pacman,
    Pip,
    Portage,
    Rpm,
    Xbps,
}

/// The manager that `name` names.
pub open spec fn manager_of(name: Seq<char>) -> Option<Manager> {
    if name == "apk"@ {
        Some(Manager::Apk)
    } else if name == "apt"@ || name == "dpkg"@ {
        Some(Manager::Dpkg)
    } else if name == "dnf"@ {
        Some(Manager::Dnf)
    } else if name == "eopkg"@ {
        Some(Manager::Eopkg)
    } else if name == "flatpak"@ {
        Some(Manager::Flatpak)
    } else if name == "pacman"@ {
        Some(Manager::Pacman)
    } else if name == "pip"@ {
        Some(Manager::Pip)
    } else if name == "portage"@ {
        Some(Manager::Portage)
    } else if name == "rpm"@ {
        Some(Manager::Rpm)
    } else if name == "xbps"@ {
        Some(Manager::Xbps)
    } else {
        None
    }
}

/// The manager that `name` names; `None` for one that is not supported.
pub fn manager(name: &str) -> (r: Option<Manager>)
    ensures
        r == manager_of(name@),
{
    if same_text(name, "apk") {
        Some(Manager::Apk)
    } else if same_text(name, "apt") || same_text(name, "dpkg") {
        Some(Manager::Dpkg)
    } else if same_text(name, "dnf") {
        Some(Manager::Dnf)
    } else if same_text(name, "eopkg") {
        Some(Manager::Eopkg)
    } else if same_text(name, "flatpak") {
        Some(Manager::Flatpak)
    } else if same_text(name, "pacman") {
        Some(Manager::Pacman)
    } else if same_text(name, "pip") {
        Some(Manager::Pip)
    } else if same_text(name, "portage") {
        Some(Manager::Portage)
    } else if same_text(name, "rpm") {
        Some(Manager::Rpm)
    } else if same_text(name, "xbps") {
        Some(Manager::Xbps)
    } else {
        None
    }
}

/// What is shown for a manager that is not supported.
pub open spec fn unsupported_message(name: Seq<char>) -> Seq<char> {
    "N/A ("@ + name + " is not supported, please file a bug to get it added!)"@
}

/// The line shown for the manager `name` that is not supported.
pub fn unsupported(name: &str) -> (r: String)
    ensures
        r@ == unsupported_message(name@),
{
    let mut out = String::from_str("N/A (");
    out.append(name);
    out.append(" is not supported, please file a bug to get it added!)");
    out
}

/// The number of newline bytes in `s`.
pub open spec fn newline_count(s: Seq<u8>) -> nat
    decreases s.len(),
{
    if s.len() == 0 {
        0
    } else {
        newline_count(s.drop_last()) + if s.last() == 10u8 {
            1nat
        } else {
            0nat
        }
    }
}

/// The number of entries in a command's output of one entry per line: the
/// lines of the output, less the empty piece after its final newline, which
/// is the number of newlines (a lossy decoding keeps every newline byte).
pub fn count(stdout: &Vec<u8>) -> (r: usize)
    ensures
        r == newline_count(stdout@),
{
    let mut n: usize = 0;
    let mut i: usize = 0;
    assert(stdout@.take(0) =~= Seq::<u8>::empty());
    while i < stdout.len()
        invariant
            i <= stdout@.len(),
            n <= i,
            n == newline_count(stdout@.take(i as int)),
        decreases stdout.len() - i,
    {
        assert(stdout@.take(i + 1).drop_last() == stdout@.take(i as int));
        if stdout[i] == 10u8 {
            n += 1;
        }
        i += 1;
    }
    assert(stdout@.take(i as int) == stdout@);
    n
}

/// The entries in `pip list` output: its lines less the two header lines;
/// `None` where there are fewer than two.
pub fn pip_count(stdout: &Vec<u8>) -> (r: Option<usize>)
    ensures
        newline_count(stdout@) >= 2 ==> r == Some((newline_count(stdout@) - 2) as usize),
        newline_count(stdout@) < 2 ==> r is None,
{
    let n = count(stdout);
    if n >= 2 {
        Some(n - 2)
    } else {
        None
    }
}

/// The installed packages of a pacman database of `entries` entries, one of
/// which is the database's version file; `None` where it has no entry.
pub fn pacman_count(entries: usize) -> (r: Option<usize>)
    ensures
        entries >= 1 ==> r == Some((entries - 1) as usize),
        entries == 0 ==> r is None,
{
    if entries >= 1 {
        Some(entries - 1)
    } else {
        None
    }
}

/// How many of `lines` say `install ok installed`.
pub open spec fn installed_lines(lines: Seq<Seq<char>>) -> nat
    decreases lines.len(),
{
    if lines.len() == 0 {
        0
    } else {
        installed_lines(lines.drop_last()) + if occurs_in(lines.last(), "install ok installed"@) {
            1nat
        } else {
            0nat
        }
    }
}

/// The installed packages that the dpkg status text `status` lists.
pub fn dpkg_installed(status: &str) -> (r: usize)
    ensures
        r == installed_lines(pieces(status@, '\n')),
{
    let lines = split(status, '\n');
    let ghost all = views(lines@);
    let mut n: usize = 0;
    let mut i: usize = 0;
    assert(all.take(0) =~= Seq::<Seq<char>>::empty());
    while i < lines.len()
        invariant
            all == views(lines@),
            i <= lines@.len(),
            n <= i,
            n == installed_lines(all.take(i as int)),
        decreases lines.len() - i,
    {
        assert(all.take(i + 1).drop_last() == all.take(i as int));
        assert(all.take(i + 1).last() == lines@[i as int]@);
        if contains(lines[i].as_str(), "install ok installed") {
            n += 1;
        }
        i += 1;
    }
    assert(all.take(i as int) == all);
    n
}

/// The portage line: the explicitly installed packages (the lines of the
/// world file less the empty piece after its final newline) and the total.
pub open spec fn portage_line(world: Seq<char>, total: usize) -> Seq<char> {
    decimal((pieces(world, '\n').len() - 1) as nat) + " (explicit), "@ + decimal(total as nat)
        + " (total)"@
}

/// The portage line for the world file `world` and `total` installed packages.
pub fn portage(world: &str, total: usize) -> (r: String)
    ensures
        r@ == portage_line(world@, total),
{
    let lines = split(world, '\n');
    proof {
        crate::text::lemma_pieces_nonempty(world@, '\n');
    }
    let mut out = String::new();
    push_decimal(&mut out, (lines.len() - 1) as u64);
    out.append(" (explicit), ");
    push_decimal(&mut out, total as u64);
    out.append(" (total)");
    assert(out@ =~= portage_line(world@, total));
    out
}

} // verus!
