use vstd::prelude::*;
use crate::error::Error;
use crate::number::{parse_u32, parsed_u32};
use crate::text::{
    chars_of, ends_with, find_line, first_with_prefix, has_prefix, has_suffix, lines_of, pieces,
    same_text, split, starts_with, trim, trimmed, views,
};

verus! {

/// Ancestor status records that the walk reads at most.
pub const MAX_HOPS: usize = 3;

/// What a caller is shown when the walk ends on no usable name.
pub const UNKNOWN_TERMINAL: &'static str =
    "N/A (could not determine the terminal, this could be an issue of using tmux)";

/// The fields of a process status record that the walk reads.
#[derive(Debug)]
pub struct ProcessStatus {
    /// The process's name, trimmed.
    pub name: String,
    /// The process's own id.
    pub pid: u32,
    /// The id of the process's parent.
    pub ppid: u32,
}

/// A status record as plain values.
pub struct StatusView {
    pub name: Seq<char>,
    pub pid: u32,
    pub ppid: u32,
}

impl View for ProcessStatus {
    type V = StatusView;

    open spec fn view(&self) -> StatusView {
        StatusView { name: self.name@, pid: self.pid, ppid: self.ppid }
    }
}

/// The value of the field `label` of a status record: on the first line that
/// begins with the label and a colon, the text between that colon and the next
/// one (or the line's end), trimmed.
pub open spec fn status_field(text: Seq<char>, label: Seq<char>) -> Option<Seq<char>> {
    match first_with_prefix(lines_of(text), label.push(':')) {
        None => None,
        Some(line) => {
            let p = pieces(line, ':');
            if p.len() >= 2 {
                Some(trimmed(p[1]))
            } else {
                None
            }
        },
    }
}

/// A numeric field of a status record: `NotFound` where the field is missing,
/// `MalformedValue` where it is not a `u32`.
pub open spec fn status_number(text: Seq<char>, label: Seq<char>) -> Result<u32, Error> {
    match status_field(text, label) {
        None => Err(Error::NotFound),
        Some(v) => match parsed_u32(v) {
            Some(n) => Ok(n),
            None => Err(Error::MalformedValue),
        },
    }
}

/// The record that the status text `text` describes, from its `Name`, `Pid`
/// and `PPid` fields; the first of them that fails, in that order, gives the error.
pub open spec fn parsed_status(text: Seq<char>) -> Result<StatusView, Error> {
    match status_field(text, "Name"@) {
        None => Err(Error::NotFound),
        Some(name) => match status_number(text, "Pid"@) {
            Err(e) => Err(e),
            Ok(pid) => match status_number(text, "PPid"@) {
                Err(e) => Err(e),
                Ok(ppid) => Ok(StatusView { name, pid, ppid }),
            },
        },
    }
}

/// Reads the field `label` of the status text `text`.
fn field(text: &str, label: &str) -> (r: Option<String>)
    ensures
        match r {
            Some(v) => status_field(text@, label@) == Some(v@),
            None => status_field(text@, label@) is None,
        },
{
    let mut key = String::from_str(label);
    crate::text::push_char(&mut key, ':');
    match find_line(text, key.as_str()) {
        None => None,
        Some(line) => {
            let parts = split(line.as_str(), ':');
            if parts.len() >= 2 {
                assert(parts@[1]@ == views(parts@)[1]);
                Some(trim(parts[1].as_str()))
            } else {
                None
            }
        },
    }
}

/// Reads the numeric field `label` of the status text `text`.
fn number_field(text: &str, label: &str) -> (r: Result<u32, Error>)
    ensures
        r == status_number(text@, label@),
{
    match field(text, label) {
        None => Err(Error::NotFound),
        Some(v) => match parse_u32(&chars_of(v.as_str())) {
            Some(n) => Ok(n),
            None => Err(Error::MalformedValue),
        },
    }
}

/// Reads the name, id and parent id out of a process status text.
pub fn parse_status(text: &str) -> (r: Result<ProcessStatus, Error>)
    ensures
        match r {
            Ok(st) => parsed_status(text@) == Ok::<StatusView, Error>(st@),
            Err(e) => parsed_status(text@) == Err::<StatusView, Error>(e),
        },
{
    let name = match field(text, "Name") {
        Some(n) => n,
        None => return Err(Error::NotFound),
    };
    let pid = match number_field(text, "Pid") {
        Ok(p) => p,
        Err(e) => return Err(e),
    };
    let ppid = match number_field(text, "PPid") {
        Ok(p) => p,
        Err(e) => return Err(e),
    };
    Ok(ProcessStatus { name, pid, ppid })
}

/// Whether the walk climbs past a process of this name: a shell (a name that
/// ends in `sh`, or `ion`) or a terminal multiplexer (`screen`, `tmux`, or a
/// name that begins with `tmux`).
pub open spec fn is_shell_or_multiplexer(name: Seq<char>) -> bool {
    has_suffix(name, "sh"@) || name == "ion"@ || name == "screen"@ || name == "tmux"@
        || has_prefix(name, "tmux"@)
}

/// Executable counterpart of `is_shell_or_multiplexer`.
pub fn shell_or_multiplexer(name: &str) -> (r: bool)
    ensures
        r == is_shell_or_multiplexer(name@),
{
    ends_with(name, "sh") || same_text(name, "ion") || same_text(name, "screen") || same_text(
        name,
        "tmux",
    ) || starts_with(name, "tmux")
}

/// The views of a table of status records.
pub open spec fn table_view(table: Seq<ProcessStatus>) -> Seq<StatusView> {
    table.map_values(|s: ProcessStatus| s@)
}

/// The first record of `table` for the process `pid`.
pub open spec fn record_of(table: Seq<StatusView>, pid: u32) -> Option<StatusView>
    decreases table.len(),
{
    if table.len() == 0 {
        None
    } else if table[0].pid == pid {
        Some(table[0])
    } else {
        record_of(table.drop_first(), pid)
    }
}

/// The walk up the ancestry, from the point where the record of `pid` is to be
/// read and `hops` ancestor records have been read before it. The record of the
/// walk's own process (`hops == 0`) gives only its parent. An ancestor's name
/// ends the walk unless it is a shell or multiplexer; the ancestor read at the
/// last hop ends it whatever its name. The result is the name the walk ended
/// on, with the number of ancestor records read.
pub open spec fn walk_from(table: Seq<StatusView>, pid: u32, hops: nat) -> Result<
    (Seq<char>, nat),
    Error,
>
    decreases MAX_HOPS - hops,
{
    match record_of(table, pid) {
        None => Err(Error::ProcessStatusUnavailable),
        Some(st) => if hops > 0 && (hops >= MAX_HOPS || !is_shell_or_multiplexer(st.name)) {
            Ok((st.name, hops))
        } else {
            walk_from(table, st.ppid, hops + 1)
        },
    }
}

/// Where the walk from the process `self_pid` ends, over the records of `table`.
pub open spec fn resolution(table: Seq<StatusView>, self_pid: u32) -> Result<(Seq<char>, nat), Error> {
    walk_from(table, self_pid, 0)
}

/// What the walk asks for next.
pub enum WalkStep {
    /// Read the status record of this process and hand it to `advance`.
    Read(u32),
    /// The walk is over, on this name.
    Resolved(String),
}

/// The state of one walk up the ancestry of a process.
#[derive(Debug, Clone, Copy, PartialEq, Eq, Structural)]
pub struct AncestryWalk {
    /// The process whose status record is to be read next.
    pub pid: u32,
    /// Ancestor records read so far.
    pub hops: usize,
}

impl AncestryWalk {
    /// A walk from the process `self_pid`, whose own record is read first.
    pub fn new(self_pid: u32) -> (r: AncestryWalk)
        ensures
            r.pid == self_pid,
            r.hops == 0,
    {
        AncestryWalk { pid: self_pid, hops: 0 }
    }

    /// Takes in the status record of `self.pid` and says what comes next: the
    /// parent's record, or the end of the walk on the name just read.
    pub fn advance(&mut self, status: &ProcessStatus) -> (step: WalkStep)
        requires
            old(self).hops <= MAX_HOPS,
        ensures
            final(self).hops <= MAX_HOPS,
            if old(self).hops > 0 && (old(self).hops >= MAX_HOPS || !is_shell_or_multiplexer(
                status.name@,
            )) {
                &&& step is Resolved
                &&& step->Resolved_0@ == status.name@
                &&& *final(self) == *old(self)
            } else {
                &&& step == WalkStep::Read(status.ppid)
                &&& final(self).pid == status.ppid
                &&& final(self).hops == old(self).hops + 1
            },
    {
        if self.hops > 0 && (self.hops >= MAX_HOPS || !shell_or_multiplexer(status.name.as_str())) {
            WalkStep::Resolved(status.name.clone())
        } else {
            self.pid = status.ppid;
            self.hops = self.hops + 1;
            WalkStep::Read(status.ppid)
        }
    }
}

/// The first record of `table` for the process `pid`.
fn find_record(table: &Vec<ProcessStatus>, pid: u32) -> (r: Option<&ProcessStatus>)
    ensures
        match r {
            Some(st) => record_of(table_view(table@), pid) == Some(st@),
            None => record_of(table_view(table@), pid) is None,
        },
{
    let ghost tv = table_view(table@);
    let mut i: usize = 0;
    assert(tv.subrange(0, tv.len() as int) == tv);
    while i < table.len()
        invariant
            i <= table@.len(),
            tv == table_view(table@),
            record_of(tv, pid) == record_of(tv.subrange(i as int, tv.len() as int), pid),
        decreases table.len() - i,
    {
        let ghost rest = tv.subrange(i as int, tv.len() as int);
        assert(rest[0] == table@[i as int]@);
        if table[i].pid == pid {
            return Some(&table[i]);
        }
        assert(rest.drop_first() == tv.subrange(i + 1, tv.len() as int));
        i += 1;
    }
    None
}

/// Walks up the ancestry of the process `self_pid` over the status records of
/// `table`, and gives the name the walk ended on with the number of ancestor
/// records read.
pub fn resolve(table: &Vec<ProcessStatus>, self_pid: u32) -> (r: Result<(String, usize), Error>)
    ensures
        match r {
            Ok((name, hops)) => resolution(table_view(table@), self_pid) == Ok::<
                (Seq<char>, nat),
                Error,
            >((name@, hops as nat)),
            Err(e) => resolution(table_view(table@), self_pid) == Err::<(Seq<char>, nat), Error>(
                e,
            ),
        },
{
    let ghost tv = table_view(table@);
    let mut walk = AncestryWalk::new(self_pid);
    loop
        invariant
            tv == table_view(table@),
            walk.hops <= MAX_HOPS,
            walk_from(tv, walk.pid, walk.hops as nat) == resolution(tv, self_pid),
        decreases MAX_HOPS - walk.hops,
    {
        let status = match find_record(table, walk.pid) {
            Some(st) => st,
            None => return Err(Error::ProcessStatusUnavailable),
        };
        match walk.advance(status) {
            WalkStep::Resolved(name) => {
                return Ok((name, walk.hops));
            },
            WalkStep::Read(_) => {},
        }
    }
}

/// What a caller is shown for the name a walk ended on: the name itself, or
/// `UNKNOWN_TERMINAL` where it is empty or `systemd`.
pub open spec fn terminal_label(name: Seq<char>) -> Seq<char> {
    if name.len() == 0 || name == "systemd"@ {
        UNKNOWN_TERMINAL@
    } else {
        name
    }
}

/// The name a walk ended on, as a caller is shown it.
pub fn terminal_name(name: String) -> (r: String)
    ensures
        r@ == terminal_label(name@),
        name@.len() == 0 || name@ == "systemd"@ ==> r@ == UNKNOWN_TERMINAL@,
{
    if name.as_str().unicode_len() == 0 || same_text(name.as_str(), "systemd") {
        String::from_str(UNKNOWN_TERMINAL)
    } else {
        name
    }
}

/// The name of the terminal that the process `self_pid` runs in, found by the
/// walk over the status records of `table` and shown as `terminal_label` says.
pub fn terminal(table: &Vec<ProcessStatus>, self_pid: u32) -> (r: Result<String, Error>)
    ensures
        match resolution(table_view(table@), self_pid) {
            Ok((name, _)) => r is Ok && r->Ok_0@ == terminal_label(name),
            Err(e) => r == Err::<String, Error>(e),
        },
{
    match resolve(table, self_pid) {
        Ok((name, _)) => Ok(terminal_name(name)),
        Err(e) => Err(e),
    }
}

/// A walk from the point where `hops` ancestor records have been read reads
/// at least one more and at most `MAX_HOPS` in all, and ends on a shell or
/// multiplexer only when the last of them was read.
proof fn lemma_walk_from_bounded(table: Seq<StatusView>, pid: u32, hops: nat)
    requires
        hops <= MAX_HOPS,
    ensures
        walk_from(table, pid, hops) matches Ok((name, n)) ==> {
            &&& hops < n || (hops == n && n > 0)
            &&& 1 <= n <= MAX_HOPS
            &&& is_shell_or_multiplexer(name) ==> n == MAX_HOPS
        },
    decreases MAX_HOPS - hops,
{
    match record_of(table, pid) {
        None => {},
        Some(st) => {
            if !(hops > 0 && (hops >= MAX_HOPS || !is_shell_or_multiplexer(st.name))) {
                lemma_walk_from_bounded(table, st.ppid, hops + 1);
            }
        },
    }
}

/// The walk reads at least one and at most `MAX_HOPS` ancestor records, and
/// where it ends on a shell or multiplexer name, it has read all `MAX_HOPS`:
/// a chain longer than that is not followed further.
pub proof fn lemma_walk_bounded(table: Seq<StatusView>, self_pid: u32)
    ensures
        resolution(table, self_pid) matches Ok((name, hops)) ==> {
            &&& 1 <= hops <= MAX_HOPS
            &&& is_shell_or_multiplexer(name) ==> hops == MAX_HOPS
        },
{
    lemma_walk_from_bounded(table, self_pid, 0);
}

} // verus!
