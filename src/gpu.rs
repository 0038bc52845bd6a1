use vstd::prelude::*;
use crate::search::{contains, occurs_in, second_piece, split_second};
use crate::text::{has_prefix, piece, piece_at, split, starts_with, trim, trimmed, pieces, views};

verus! {

/// The hexadecimal digits of a sysfs id such as `0x10de`: what follows the
/// first `x` of the trimmed text, up to a next one.
pub fn hex_id(raw: &str) -> (r: Option<String>)
    ensures
        match r {
            Some(v) => piece_at(trimmed(raw@), 'x', 1) == Some(v@),
            None => piece_at(trimmed(raw@), 'x', 1) is None,
        },
{
    let t = trim(raw);
    piece(t.as_str(), 'x', 1)
}

/// Whether `line` begins with one of `ids`.
pub open spec fn begins_with_any(line: Seq<char>, ids: Seq<Seq<char>>) -> bool {
    exists|j: int| 0 <= j < ids.len() && #[trigger] has_prefix(line, ids[j])
}

/// Whether one of `ids` occurs in `line`.
pub open spec fn holds_any(line: Seq<char>, ids: Seq<Seq<char>>) -> bool {
    exists|j: int| 0 <= j < ids.len() && #[trigger] occurs_in(line, ids[j])
}

/// The GPU names that a scan of the `pci.ids` lines `lines` finds. A line that
/// begins with a vendor id opens a vendor's block; while one is open, the
/// first line that holds a device id names a GPU (its second field, between
/// the first two double spaces, trimmed) and closes the block. `found` says
/// whether a block is open before the first line. There is no answer where a
/// naming line has no double space.
pub open spec fn gpu_scan(
    lines: Seq<Seq<char>>,
    devices: Seq<Seq<char>>,
    vendors: Seq<Seq<char>>,
    found: bool,
) -> Option<Seq<Seq<char>>>
    decreases lines.len(),
{
    if lines.len() == 0 {
        Some(Seq::<Seq<char>>::empty())
    } else {
        let line = lines[0];
        let open = found || begins_with_any(line, vendors);
        if open && holds_any(line, devices) {
            match second_piece(line, "  "@) {
                None => None,
                Some(name) => match gpu_scan(lines.drop_first(), devices, vendors, false) {
                    Some(rest) => Some(seq![trimmed(name)] + rest),
                    None => None,
                },
            }
        } else {
            gpu_scan(lines.drop_first(), devices, vendors, open)
        }
    }
}

/// `done` ahead of the names of `rest`, where there are any.
pub open spec fn ahead(done: Seq<Seq<char>>, rest: Option<Seq<Seq<char>>>) -> Option<Seq<Seq<char>>> {
    match rest {
        Some(r) => Some(done + r),
        None => None,
    }
}

/// Whether `line` begins with one of `ids`.
fn begins_with_one(line: &str, ids: &Vec<String>) -> (r: bool)
    ensures
        r == begins_with_any(line@, views(ids@)),
{
    let mut j: usize = 0;
    while j < ids.len()
        invariant
            j <= ids@.len(),
            forall|k: int| 0 <= k < j ==> !#[trigger] has_prefix(line@, views(ids@)[k]),
        decreases ids.len() - j,
    {
        assert(views(ids@)[j as int] == ids@[j as int]@);
        if starts_with(line, ids[j].as_str()) {
            return true;
        }
        j += 1;
    }
    false
}

/// Whether one of `ids` occurs in `line`.
fn holds_one(line: &str, ids: &Vec<String>) -> (r: bool)
    ensures
        r == holds_any(line@, views(ids@)),
{
    let mut j: usize = 0;
    while j < ids.len()
        invariant
            j <= ids@.len(),
            forall|k: int| 0 <= k < j ==> !#[trigger] occurs_in(line@, views(ids@)[k]),
        decreases ids.len() - j,
    {
        assert(views(ids@)[j as int] == ids@[j as int]@);
        if contains(line, ids[j].as_str()) {
            return true;
        }
        j += 1;
    }
    false
}

/// The names of the GPUs with the device ids `devices` and the vendor ids
/// `vendors`, as the scan of the `pci.ids` text `pci_ids` finds them.
pub fn gpu(devices: &Vec<String>, vendors: &Vec<String>, pci_ids: &str) -> (r: Option<Vec<String>>)
    ensures
        match r {
            Some(names) => gpu_scan(pieces(pci_ids@, '\n'), views(devices@), views(vendors@), false)
                == Some(views(names@)),
            None => gpu_scan(pieces(pci_ids@, '\n'), views(devices@), views(vendors@), false) is None,
        },
{
    proof {
        reveal_strlit("  ");
    }
    let lines = split(pci_ids, '\n');
    let ghost all = pieces(pci_ids@, '\n');
    let ghost ds = views(devices@);
    let ghost vs = views(vendors@);
    let mut names: Vec<String> = Vec::new();
    let mut found = false;
    let mut i: usize = 0;
    assert(all.skip(0) == all);
    assert(views(names@) =~= Seq::<Seq<char>>::empty());
    while i < lines.len()
        invariant
            views(lines@) == all,
            all == pieces(pci_ids@, '\n'),
            ds == views(devices@),
            vs == views(vendors@),
            i <= lines@.len(),
            gpu_scan(all, ds, vs, false) == ahead(views(names@), gpu_scan(all.skip(i as int), ds, vs, found)),
        decreases lines.len() - i,
    {
        proof {
            reveal_strlit("  ");
        }
        let ghost rest = all.skip(i as int);
        assert(rest[0] == lines@[i as int]@);
        assert(rest.drop_first() == all.skip(i + 1));
        let line = lines[i].as_str();
        let open = found || begins_with_one(line, vendors);
        if open && holds_one(line, devices) {
            match split_second(line, "  ") {
                None => return None,
                Some(name) => {
                    let ghost before = views(names@);
                    let t = trim(name.as_str());
                    let ghost tv = t@;
                    names.push(t);
                    assert(views(names@) =~= before.push(tv));
                    let ghost tail = gpu_scan(all.skip(i + 1), ds, vs, false);
                    proof {
                        if tail is Some {
                            assert(before + (seq![tv] + tail->Some_0) =~= views(names@)
                                + tail->Some_0);
                        }
                    }
                    found = false;
                },
            }
        } else {
            found = open;
        }
        i += 1;
    }
    assert(all.skip(i as int) =~= Seq::<Seq<char>>::empty());
    assert(views(names@) + Seq::<Seq<char>>::empty() =~= views(names@));
    Some(names)
}

} // verus!
