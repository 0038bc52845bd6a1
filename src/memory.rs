use vstd::prelude::*;
use crate::error::Error;
use crate::number::{
    decimal, is_digit, lemma_decimal_parses, lemma_parse_decimal, parse_u64, parsed_u64,
    push_decimal,
};
use crate::text::{
    chars_of, find_line, first_with_prefix, has_prefix, is_space, lacks, lemma_first_with_prefix,
    lemma_pieces_after, lemma_pieces_single, lines_of, pieces, push_char, split, string_of, trim,
    trim_end, trim_start, trimmed, views,
};

verus! {

/// Kilobytes in one of the megabytes that memory is shown in.
pub const KB_PER_MB: u64 = 1024;

/// Whether `t` ends with the unit `kB`.
pub open spec fn ends_with_kb(t: Seq<char>) -> bool {
    t.len() >= 2 && t[t.len() - 2] == 'k' && t[t.len() - 1] == 'B'
}

/// The number text of a table line: what follows its last colon, trimmed, with
/// a trailing `kB` and the white space before it taken off.
pub open spec fn value_text(line: Seq<char>) -> Seq<char> {
    let t = trimmed(pieces(line, ':').last());
    if ends_with_kb(t) {
        trimmed(t.subrange(0, t.len() - 2))
    } else {
        t
    }
}

/// The value in kilobytes that a statistics table gives for `label`.
pub open spec fn lookup(table: Seq<char>, label: Seq<char>) -> Result<u64, Error> {
    match first_with_prefix(lines_of(table), label) {
        None => Err(Error::NotFound),
        Some(line) => match parsed_u64(value_text(line)) {
            Some(v) => Ok(v),
            None => Err(Error::MalformedValue),
        },
    }
}

/// How an amount of `kb` kilobytes is shown: whole megabytes of 1024 kB,
/// rounded down, then ` MB`.
pub open spec fn shown(kb: u64) -> Seq<char> {
    decimal((kb / KB_PER_MB) as nat) + seq![' ', 'M', 'B']
}

/// Whether `r` is `looked_up` shown in megabytes, with any error passed on.
pub open spec fn shown_result(looked_up: Result<u64, Error>, r: Result<String, Error>) -> bool {
    match looked_up {
        Ok(kb) => r is Ok && r->Ok_0@ == shown(kb),
        Err(e) => r == Err::<String, Error>(e),
    }
}

/// Used memory in kilobytes: `MemTotal` less `MemAvailable`, and no less than
/// zero; the first failing lookup, `MemTotal` first, is the error.
pub open spec fn used_kb(table: Seq<char>) -> Result<u64, Error> {
    match lookup(table, "MemTotal"@) {
        Err(e) => Err(e),
        Ok(total) => match lookup(table, "MemAvailable"@) {
            Err(e) => Err(e),
            Ok(available) => Ok(
                if available <= total {
                    (total - available) as u64
                } else {
                    0
                },
            ),
        },
    }
}

/// Reads the number of a table line, as `value_text` and `parsed_u64` describe.
fn line_value(line: &str) -> (r: Result<u64, Error>)
    ensures
        r == (match parsed_u64(value_text(line@)) {
            Some(v) => Ok(v),
            None => Err(Error::MalformedValue),
        }),
{
    let parts = split(line, ':');
    proof {
        crate::text::lemma_pieces_nonempty(line@, ':');
        assert(parts@.last()@ == views(parts@).last());
    }
    let t = trim(parts[parts.len() - 1].as_str());
    let tc = chars_of(t.as_str());
    let n = tc.len();
    let digits = if n >= 2 && tc[n - 2] == 'k' && tc[n - 1] == 'B' {
        let bare = string_of(&tc, 0, n - 2);
        let bare = trim(bare.as_str());
        chars_of(bare.as_str())
    } else {
        tc
    };
    match parse_u64(&digits) {
        Some(v) => Ok(v),
        None => Err(Error::MalformedValue),
    }
}

/// The value in kilobytes that the statistics table `meminfo` gives for the
/// label `mem_value`: the first line that begins with the label is read.
pub fn memory(mem_value: &str, meminfo: &str) -> (r: Result<u64, Error>)
    ensures
        r == lookup(meminfo@, mem_value@),
{
    match find_line(meminfo, mem_value) {
        Some(line) => line_value(line.as_str()),
        None => Err(Error::NotFound),
    }
}

/// Shows `value_kb` kilobytes in whole megabytes of 1024 kB: `"8192 MB"`.
pub fn memory_formatter(value_kb: u64) -> (r: String)
    ensures
        r@ == shown(value_kb),
{
    let mut out = String::new();
    push_decimal(&mut out, value_kb / KB_PER_MB);
    push_char(&mut out, ' ');
    push_char(&mut out, 'M');
    push_char(&mut out, 'B');
    assert(out@ =~= shown(value_kb));
    out
}

/// Looks `label` up in `meminfo` and shows the value in megabytes.
fn shown_lookup(label: &str, meminfo: &str) -> (r: Result<String, Error>)
    ensures
        shown_result(lookup(meminfo@, label@), r),
{
    match memory(label, meminfo) {
        Ok(kb) => Ok(memory_formatter(kb)),
        Err(e) => Err(e),
    }
}

/// Free memory (`MemFree`) of the statistics table `meminfo`, in megabytes.
pub fn memory_free(meminfo: &str) -> (r: Result<String, Error>)
    ensures
        shown_result(lookup(meminfo@, "MemFree"@), r),
{
    shown_lookup("MemFree", meminfo)
}

/// Memory available to new programs (`MemAvailable`), in megabytes.
pub fn memory_available(meminfo: &str) -> (r: Result<String, Error>)
    ensures
        shown_result(lookup(meminfo@, "MemAvailable"@), r),
{
    shown_lookup("MemAvailable", meminfo)
}

/// Total memory (`MemTotal`) of the statistics table `meminfo`, in megabytes.
pub fn memory_total(meminfo: &str) -> (r: Result<String, Error>)
    ensures
        shown_result(lookup(meminfo@, "MemTotal"@), r),
{
    shown_lookup("MemTotal", meminfo)
}

/// Used memory in kilobytes: `MemTotal` less `MemAvailable` (zero where the
/// table gives more available than total).
pub fn memory_used_kb(meminfo: &str) -> (r: Result<u64, Error>)
    ensures
        r == used_kb(meminfo@),
        r is Ok ==> r->Ok_0 <= lookup(meminfo@, "MemTotal"@)->Ok_0,
        lookup(meminfo@, "MemTotal"@) matches Ok(total) ==> lookup(meminfo@, "MemAvailable"@) matches Ok(
            available,
        ) ==> available <= total ==> r == Ok::<u64, Error>((total - available) as u64),
{
    let total = match memory("MemTotal", meminfo) {
        Ok(v) => v,
        Err(e) => return Err(e),
    };
    let available = match memory("MemAvailable", meminfo) {
        Ok(v) => v,
        Err(e) => return Err(e),
    };
    Ok(total.saturating_sub(available))
}

/// Used memory of the statistics table `meminfo`, in megabytes.
pub fn memory_used(meminfo: &str) -> (r: Result<String, Error>)
    ensures
        shown_result(used_kb(meminfo@), r),
{
    match memory_used_kb(meminfo) {
        Ok(kb) => Ok(memory_formatter(kb)),
        Err(e) => Err(e),
    }
}

/// `n` spaces.
pub open spec fn spaces(n: nat) -> Seq<char> {
    Seq::new(n, |_i: int| ' ')
}

/// A line of a statistics table as the kernel writes it: the label, a colon,
/// `pad` spaces, the value in decimal and ` kB`.
pub open spec fn table_line(label: Seq<char>, pad: nat, kb: u64) -> Seq<char> {
    label + seq![':'] + (spaces(pad) + decimal(kb as nat) + seq![' ', 'k', 'B'])
}

/// A statistics table of `entries` (label, padding, value in kilobytes), one
/// line each, each line ended by a newline.
pub open spec fn table_text(entries: Seq<(Seq<char>, nat, u64)>) -> Seq<char>
    decreases entries.len(),
{
    if entries.len() == 0 {
        Seq::<char>::empty()
    } else {
        table_line(entries[0].0, entries[0].1, entries[0].2) + seq!['\n'] + table_text(
            entries.drop_first(),
        )
    }
}

/// The lines of the table of `entries`.
pub open spec fn table_lines(entries: Seq<(Seq<char>, nat, u64)>) -> Seq<Seq<char>> {
    entries.map_values(|e: (Seq<char>, nat, u64)| table_line(e.0, e.1, e.2))
}

/// Labels that a table of `entries` can be searched by: none holds a colon
/// or a newline, and none begins another.
pub open spec fn distinct_labels(entries: Seq<(Seq<char>, nat, u64)>) -> bool {
    &&& forall|j: int| 0 <= j < entries.len() ==> lacks(#[trigger] entries[j].0, ':')
    &&& forall|j: int| 0 <= j < entries.len() ==> lacks(#[trigger] entries[j].0, '\n')
    &&& forall|j: int, k: int|
        0 <= j < entries.len() && 0 <= k < entries.len() && j != k ==> !has_prefix(
            #[trigger] entries[k].0,
            #[trigger] entries[j].0,
        )
}

proof fn lemma_decimal_plain(kb: u64)
    ensures
        decimal(kb as nat).len() > 0,
        forall|i: int|
            0 <= i < decimal(kb as nat).len() ==> {
                let c = #[trigger] decimal(kb as nat)[i];
                &&& !is_space(c)
                &&& c != ':'
                &&& c != '\n'
            },
{
    lemma_decimal_parses(kb as nat);
    assert forall|i: int| 0 <= i < decimal(kb as nat).len() implies {
        let c = #[trigger] decimal(kb as nat)[i];
        &&& !is_space(c)
        &&& c != ':'
        &&& c != '\n'
    } by {
        assert(is_digit(decimal(kb as nat)[i]));
    }
}

proof fn lemma_trim_spaces(pad: nat, d: Seq<char>)
    ensures
        trim_start(spaces(pad) + d) == trim_start(d),
    decreases pad,
{
    if pad > 0 {
        assert((spaces(pad) + d).drop_first() =~= spaces((pad - 1) as nat) + d);
        lemma_trim_spaces((pad - 1) as nat, d);
    } else {
        assert(spaces(pad) + d =~= d);
    }
}

/// The number text of a table line is the decimal of its value.
proof fn lemma_line_value(label: Seq<char>, pad: nat, kb: u64)
    requires
        lacks(label, ':'),
    ensures
        value_text(table_line(label, pad, kb)) == decimal(kb as nat),
{
    let d = decimal(kb as nat);
    let unit = seq![' ', 'k', 'B'];
    let rest = spaces(pad) + d + unit;
    lemma_decimal_plain(kb);
    assert(lacks(rest, ':')) by {
        assert forall|i: int| 0 <= i < rest.len() implies rest[i] != ':' by {
            if i >= pad && i < pad + d.len() {
                assert(rest[i] == d[i - pad]);
            }
        }
    }
    lemma_pieces_after(label, ':', rest);
    lemma_pieces_single(rest, ':');
    assert(pieces(table_line(label, pad, kb), ':').last() == rest);
    let du = d + unit;
    assert(rest =~= spaces(pad) + du);
    lemma_trim_spaces(pad, du);
    assert(du[0] == d[0]);
    assert(trim_start(du) == du);
    assert(trim_end(du) == du);
    assert(trimmed(rest) == du);
    assert(ends_with_kb(du));
    let bare = du.subrange(0, du.len() - 2);
    assert(bare =~= d.push(' '));
    assert(bare[0] == d[0]);
    assert(trim_start(bare) == bare);
    assert(bare.drop_last() =~= d);
    assert(trim_end(bare) == trim_end(d));
    assert(trim_end(d) == d);
}

/// A table that the kernel's layout writes reads back: looking up the label of
/// any entry gives that entry's value, for labels without colons or newlines
/// of which none begins another.
pub proof fn lemma_table_round_trip(entries: Seq<(Seq<char>, nat, u64)>, i: int)
    requires
        0 <= i < entries.len(),
        distinct_labels(entries),
    ensures
        lookup(table_text(entries), entries[i].0) == Ok::<u64, Error>(entries[i].2),
{
    lemma_table_lines(entries);
    let ls = table_lines(entries);
    let label = entries[i].0;
    assert forall|j: int| 0 <= j < i implies !has_prefix(#[trigger] ls[j], label) by {
        lemma_line_prefix(entries[j].0, entries[j].1, entries[j].2, label);
    }
    assert(ls[i] == table_line(label, entries[i].1, entries[i].2));
    assert(ls[i].take(label.len() as int) =~= label);
    lemma_first_with_prefix(ls, label, i);
    lemma_line_value(label, entries[i].1, entries[i].2);
    lemma_parse_decimal(entries[i].2);
}

/// A line of another label does not begin with `label`.
proof fn lemma_line_prefix(other: Seq<char>, pad: nat, kb: u64, label: Seq<char>)
    requires
        lacks(label, ':'),
        !has_prefix(other, label),
    ensures
        !has_prefix(table_line(other, pad, kb), label),
{
    let line = table_line(other, pad, kb);
    if has_prefix(line, label) {
        if label.len() <= other.len() {
            assert(other.take(label.len() as int) =~= line.take(label.len() as int));
        } else {
            assert(line[other.len() as int] == ':');
            assert(label[other.len() as int] == line.take(label.len() as int)[other.len() as int]);
        }
    }
}

/// The lines of a table text are those of its entries.
proof fn lemma_table_lines(entries: Seq<(Seq<char>, nat, u64)>)
    requires
        distinct_labels(entries),
    ensures
        lines_of(table_text(entries)) == table_lines(entries),
{
    lemma_table_pieces(entries);
    let p = pieces(table_text(entries), '\n');
    assert(p.drop_last() =~= table_lines(entries));
}

proof fn lemma_table_pieces(entries: Seq<(Seq<char>, nat, u64)>)
    requires
        forall|j: int| 0 <= j < entries.len() ==> lacks(#[trigger] entries[j].0, ':'),
        forall|j: int| 0 <= j < entries.len() ==> lacks(#[trigger] entries[j].0, '\n'),
    ensures
        pieces(table_text(entries), '\n') == table_lines(entries).push(Seq::<char>::empty()),
    decreases entries.len(),
{
    if entries.len() == 0 {
        assert(pieces(Seq::<char>::empty(), '\n') =~= seq![Seq::<char>::empty()]);
        assert(table_lines(entries).push(Seq::<char>::empty()) =~= seq![Seq::<char>::empty()]);
    } else {
        let e = entries[0];
        let rest = entries.drop_first();
        assert forall|j: int| 0 <= j < rest.len() implies lacks(#[trigger] rest[j].0, ':') by {
            assert(rest[j] == entries[j + 1]);
        }
        assert forall|j: int| 0 <= j < rest.len() implies lacks(#[trigger] rest[j].0, '\n') by {
            assert(rest[j] == entries[j + 1]);
        }
        lemma_table_pieces(rest);
        let line = table_line(e.0, e.1, e.2);
        assert(lacks(e.0, '\n'));
        lemma_decimal_plain(e.2);
        assert(lacks(line, '\n')) by {
            let d = decimal(e.2 as nat);
            assert forall|k: int| 0 <= k < line.len() implies line[k] != '\n' by {
                let a = e.0.len() + 1 + e.1;
                if k >= a && k < a + d.len() {
                    assert(line[k] == d[k - a]);
                } else if k < e.0.len() {
                    assert(line[k] == e.0[k]);
                }
            }
        }
        lemma_pieces_after(line, '\n', table_text(rest));
        assert(table_lines(entries) =~= seq![line] + table_lines(rest));
        assert(pieces(table_text(entries), '\n') =~= table_lines(entries).push(Seq::<char>::empty()));
    }
}

/// Looking up a label that begins no line of the table gives `NotFound`,
/// never a value.
pub proof fn lemma_missing_label(table: Seq<char>, label: Seq<char>)
    requires
        forall|j: int|
            0 <= j < lines_of(table).len() ==> !has_prefix(#[trigger] lines_of(table)[j], label),
    ensures
        lookup(table, label) == Err::<u64, Error>(Error::NotFound),
{
    lemma_first_with_prefix(lines_of(table), label, lines_of(table).len() as int);
}

} // verus!
