use vstd::prelude::*;

verus! {

/// Whether `c` is white space in the sense of Unicode's `White_Space` property,
/// which is what `char::is_whitespace` and `str::trim` go by.
pub open spec fn is_space(c: char) -> bool {
    ('\u{9}' <= c && c <= '\u{d}') || c == ' ' || c == '\u{85}' || c == '\u{a0}'
        || c == '\u{1680}' || ('\u{2000}' <= c && c <= '\u{200a}') || c == '\u{2028}'
        || c == '\u{2029}' || c == '\u{202f}' || c == '\u{205f}' || c == '\u{3000}'
}

/// `s` without its leading white space.
pub open spec fn trim_start(s: Seq<char>) -> Seq<char>
    decreases s.len(),
{
    if s.len() > 0 && is_space(s[0]) {
        trim_start(s.drop_first())
    } else {
        s
    }
}

/// `s` without its trailing white space.
pub open spec fn trim_end(s: Seq<char>) -> Seq<char>
    decreases s.len(),
{
    if s.len() > 0 && is_space(s.last()) {
        trim_end(s.drop_last())
    } else {
        s
    }
}

/// `s` without white space at either end.
pub open spec fn trimmed(s: Seq<char>) -> Seq<char> {
    trim_end(trim_start(s))
}

/// Executable counterpart of `is_space`.
pub fn is_space_char(c: char) -> (r: bool)
    ensures
        r == is_space(c),
{
    ('\u{9}' <= c && c <= '\u{d}') || c == ' ' || c == '\u{85}' || c == '\u{a0}'
        || c == '\u{1680}' || ('\u{2000}' <= c && c <= '\u{200a}') || c == '\u{2028}'
        || c == '\u{2029}' || c == '\u{202f}' || c == '\u{205f}' || c == '\u{3000}'
}

/// The characters of `s`, in order.
pub fn chars_of(s: &str) -> (r: Vec<char>)
    ensures
        r@ == s@,
{
    let mut r: Vec<char> = Vec::new();
    for c in it: s.chars()
        invariant
            r@ == it.seq().take(it.index() as int),
    {
        r.push(c);
    }
    r
}

/// Relies on `String::push`: appends one character at the end.
#[verifier::external_body]
pub(crate) fn push_char(s: &mut String, c: char)
    ensures
        final(s)@ == old(s)@.push(c),
{
    s.push(c)
}

/// The characters `cs[from..to]` as a string.
pub fn string_of(cs: &Vec<char>, from: usize, to: usize) -> (r: String)
    requires
        from <= to <= cs@.len(),
    ensures
        r@ == cs@.subrange(from as int, to as int),
{
    let mut r = String::new();
    let mut i = from;
    while i < to
        invariant
            from <= i <= to <= cs@.len(),
            r@ == cs@.subrange(from as int, i as int),
        decreases to - i,
    {
        push_char(&mut r, cs[i]);
        proof {
            assert(cs@.subrange(from as int, i + 1) == cs@.subrange(from as int, i as int).push(cs@[i as int]));
        }
        i += 1;
    }
    r
}

proof fn lemma_trim_start_skip(s: Seq<char>, i: int)
    requires
        0 <= i < s.len(),
        is_space(s[i]),
    ensures
        trim_start(s.subrange(i, s.len() as int)) == trim_start(s.subrange(i + 1, s.len() as int)),
{
    let t = s.subrange(i, s.len() as int);
    assert(t.drop_first() == s.subrange(i + 1, s.len() as int));
}

proof fn lemma_trim_end_skip(s: Seq<char>, j: int)
    requires
        0 < j <= s.len(),
        is_space(s[j - 1]),
    ensures
        trim_end(s.subrange(0, j)) == trim_end(s.subrange(0, j - 1)),
{
    let t = s.subrange(0, j);
    assert(t.drop_last() == s.subrange(0, j - 1));
}

/// `s` with white space removed from both ends, as `str::trim` does it.
pub fn trim(s: &str) -> (r: String)
    ensures
        r@ == trimmed(s@),
{
    let cs = chars_of(s);
    let n = cs.len();
    let mut i: usize = 0;
    assert(s@.subrange(0, n as int) == s@);
    while i < n && is_space_char(cs[i])
        invariant
            i <= n == cs@.len(),
            cs@ == s@,
            trim_start(s@) == trim_start(s@.subrange(i as int, n as int)),
        decreases n - i,
    {
        proof {
            lemma_trim_start_skip(s@, i as int);
        }
        i += 1;
    }
    let ghost rest = s@.subrange(i as int, n as int);
    proof {
        assert(s@.subrange(n as int, n as int).len() == 0);
        assert(trim_start(s@) == rest);
    }
    let mut j: usize = n;
    assert(rest.subrange(0, j - i) == rest);
    while j > i && is_space_char(cs[j - 1])
        invariant
            i <= j <= n == cs@.len(),
            cs@ == s@,
            rest == s@.subrange(i as int, n as int),
            trim_end(rest) == trim_end(rest.subrange(0, j - i)),
        decreases j,
    {
        proof {
            lemma_trim_end_skip(rest, (j - i) as int);
        }
        j -= 1;
    }
    proof {
        assert(rest.subrange(0, j - i) == s@.subrange(i as int, j as int));
    }
    string_of(&cs, i, j)
}

/// The pieces of `s` between occurrences of `sep`, as `str::split` with a
/// character pattern gives them: one more piece than there are separators.
pub open spec fn pieces(s: Seq<char>, sep: char) -> Seq<Seq<char>>
    decreases s.len(),
{
    if s.len() == 0 {
        seq![Seq::<char>::empty()]
    } else {
        let p = pieces(s.drop_last(), sep);
        if s.last() == sep {
            p.push(Seq::<char>::empty())
        } else {
            p.update(p.len() - 1, p.last().push(s.last()))
        }
    }
}

/// The views of a sequence of strings.
pub open spec fn views(v: Seq<String>) -> Seq<Seq<char>> {
    v.map_values(|x: String| x@)
}

pub proof fn lemma_pieces_nonempty(s: Seq<char>, sep: char)
    ensures
        pieces(s, sep).len() >= 1,
    decreases s.len(),
{
    if s.len() > 0 {
        lemma_pieces_nonempty(s.drop_last(), sep);
    }
}

/// Splits `s` at every `sep`, as `str::split` does with a character pattern.
pub fn split(s: &str, sep: char) -> (r: Vec<String>)
    ensures
        views(r@) == pieces(s@, sep),
{
    let cs = chars_of(s);
    let mut done: Vec<String> = Vec::new();
    let mut cur = String::new();
    let mut i: usize = 0;
    assert(s@.take(0) == Seq::<char>::empty());
    while i < cs.len()
        invariant
            i <= cs@.len(),
            cs@ == s@,
            views(done@).push(cur@) == pieces(s@.take(i as int), sep),
        decreases cs.len() - i,
    {
        let c = cs[i];
        let ghost before = s@.take(i as int);
        proof {
            assert(s@.take(i + 1).drop_last() == before);
            lemma_pieces_nonempty(before, sep);
        }
        if c == sep {
            let ghost d0 = done@;
            let ghost last = cur@;
            done.push(cur);
            cur = String::new();
            assert(views(done@) =~= views(d0).push(last));
        } else {
            push_char(&mut cur, c);
        }
        i += 1;
    }
    assert(s@.take(cs@.len() as int) == s@);
    let ghost d0 = done@;
    let ghost last = cur@;
    done.push(cur);
    assert(views(done@) =~= views(d0).push(last));
    done
}

/// Whether `s` begins with `p`.
pub open spec fn has_prefix(s: Seq<char>, p: Seq<char>) -> bool {
    p.len() <= s.len() && s.take(p.len() as int) == p
}

/// Whether `s` begins with `p`, as `str::starts_with` tells it.
pub fn starts_with(s: &str, p: &str) -> (r: bool)
    ensures
        r == has_prefix(s@, p@),
{
    let sc = chars_of(s);
    let pc = chars_of(p);
    if pc.len() > sc.len() {
        return false;
    }
    let mut i: usize = 0;
    while i < pc.len()
        invariant
            i <= pc@.len() <= sc@.len(),
            sc@ == s@,
            pc@ == p@,
            sc@.take(i as int) == pc@.take(i as int),
        decreases pc.len() - i,
    {
        if sc[i] != pc[i] {
            assert(s@.take(p@.len() as int)[i as int] != p@[i as int]);
            return false;
        }
        assert(sc@.take(i + 1) =~= sc@.take(i as int).push(sc@[i as int]));
        assert(pc@.take(i + 1) =~= pc@.take(i as int).push(pc@[i as int]));
        i += 1;
    }
    assert(pc@.take(i as int) == pc@);
    true
}

/// The lines of a text: the pieces between newlines, leaving out
/// the empty piece that follows a final newline.
pub open spec fn lines_of(table: Seq<char>) -> Seq<Seq<char>> {
    let p = pieces(table, '\n');
    if p.len() > 0 && p.last().len() == 0 {
        p.drop_last()
    } else {
        p
    }
}

/// The first of `lines` that begins with `label`.
pub open spec fn first_with_prefix(lines: Seq<Seq<char>>, label: Seq<char>) -> Option<Seq<char>>
    decreases lines.len(),
{
    if lines.len() == 0 {
        None
    } else if has_prefix(lines[0], label) {
        Some(lines[0])
    } else {
        first_with_prefix(lines.drop_first(), label)
    }
}

/// The first line of `text` that begins with `prefix`, as `lines_of` and
/// `first_with_prefix` describe it.
pub fn find_line(text: &str, prefix: &str) -> (r: Option<String>)
    ensures
        match r {
            Some(line) => first_with_prefix(lines_of(text@), prefix@) == Some(line@),
            None => first_with_prefix(lines_of(text@), prefix@) is None,
        },
{
    let lines = split(text, '\n');
    proof {
        lemma_pieces_nonempty(text@, '\n');
    }
    let n = if lines[lines.len() - 1].as_str().unicode_len() == 0 {
        lines.len() - 1
    } else {
        lines.len()
    };
    let ghost ls = lines_of(text@);
    assert(ls =~= views(lines@).take(n as int));
    let mut i: usize = 0;
    assert(ls.subrange(0, ls.len() as int) == ls);
    while i < n
        invariant
            n <= lines@.len(),
            ls == views(lines@).take(n as int),
            ls == lines_of(text@),
            i <= n,
            first_with_prefix(ls, prefix@) == first_with_prefix(
                ls.subrange(i as int, n as int),
                prefix@,
            ),
        decreases n - i,
    {
        let ghost rest = ls.subrange(i as int, n as int);
        assert(rest[0] == lines@[i as int]@);
        if starts_with(lines[i].as_str(), prefix) {
            return Some(lines[i].clone());
        }
        assert(rest.drop_first() == ls.subrange(i + 1, n as int));
        i += 1;
    }
    None
}

/// Whether `s` ends with `p`.
pub open spec fn has_suffix(s: Seq<char>, p: Seq<char>) -> bool {
    p.len() <= s.len() && s.subrange(s.len() - p.len(), s.len() as int) == p
}

/// Whether `s` ends with `p`, as `str::ends_with` tells it.
pub fn ends_with(s: &str, p: &str) -> (r: bool)
    ensures
        r == has_suffix(s@, p@),
{
    let sc = chars_of(s);
    let pc = chars_of(p);
    if pc.len() > sc.len() {
        return false;
    }
    let n = sc.len();
    let off = n - pc.len();
    let mut i: usize = 0;
    while i < pc.len()
        invariant
            i <= pc@.len() <= sc@.len(),
            n == sc@.len(),
            off + pc@.len() == n,
            sc@ == s@,
            pc@ == p@,
            forall|j: int| 0 <= j < i ==> sc@[off + j] == pc@[j],
        decreases pc.len() - i,
    {
        if sc[off + i] != pc[i] {
            assert(s@.subrange(off as int, s@.len() as int)[i as int] != p@[i as int]);
            return false;
        }
        i += 1;
    }
    assert(s@.subrange(off as int, s@.len() as int) =~= p@);
    true
}

/// Whether `a` and `b` hold the same characters.
pub fn same_text(a: &str, b: &str) -> (r: bool)
    ensures
        r == (a@ == b@),
{
    let ac = chars_of(a);
    let bc = chars_of(b);
    if ac.len() != bc.len() {
        return false;
    }
    let mut i: usize = 0;
    while i < ac.len()
        invariant
            i <= ac@.len() == bc@.len(),
            ac@ == a@,
            bc@ == b@,
            forall|j: int| 0 <= j < i ==> ac@[j] == bc@[j],
        decreases ac.len() - i,
    {
        if ac[i] != bc[i] {
            return false;
        }
        i += 1;
    }
    assert(a@ =~= b@);
    true
}

/// Whether `c` occurs nowhere in `s`.
pub open spec fn lacks(s: Seq<char>, c: char) -> bool {
    forall|i: int| 0 <= i < s.len() ==> s[i] != c
}

/// A text without the separator is a single piece.
pub proof fn lemma_pieces_single(a: Seq<char>, sep: char)
    requires
        lacks(a, sep),
    ensures
        pieces(a, sep) == seq![a],
    decreases a.len(),
{
    if a.len() == 0 {
        assert(a =~= Seq::<char>::empty());
    } else {
        lemma_pieces_single(a.drop_last(), sep);
        assert(a.drop_last().push(a.last()) =~= a);
        assert(pieces(a, sep) =~= seq![a]);
    }
}

/// A first piece `a`, then the separator, then `b`: the pieces are `a` and
/// those of `b`.
pub proof fn lemma_pieces_after(a: Seq<char>, sep: char, b: Seq<char>)
    requires
        lacks(a, sep),
    ensures
        pieces(a + seq![sep] + b, sep) == seq![a] + pieces(b, sep),
    decreases b.len(),
{
    let s = a + seq![sep] + b;
    lemma_pieces_single(a, sep);
    if b.len() == 0 {
        assert(s.drop_last() =~= a);
        assert(pieces(s, sep) =~= seq![a] + pieces(b, sep));
    } else {
        lemma_pieces_after(a, sep, b.drop_last());
        assert(s.drop_last() =~= a + seq![sep] + b.drop_last());
        lemma_pieces_nonempty(b.drop_last(), sep);
        assert(pieces(s, sep) =~= seq![a] + pieces(b, sep));
    }
}

/// The first line with a prefix is the line `i` where it begins that line and
/// none before it.
pub proof fn lemma_first_with_prefix(lines: Seq<Seq<char>>, label: Seq<char>, i: int)
    requires
        0 <= i <= lines.len(),
        forall|j: int| 0 <= j < i ==> !has_prefix(#[trigger] lines[j], label),
        i < lines.len() ==> has_prefix(lines[i], label),
    ensures
        first_with_prefix(lines, label) == (if i < lines.len() {
            Some(lines[i])
        } else {
            None::<Seq<char>>
        }),
    decreases i,
{
    if lines.len() > 0 && i > 0 {
        assert(!has_prefix(lines[0], label));
        let rest = lines.drop_first();
        assert forall|j: int| 0 <= j < i - 1 implies !has_prefix(#[trigger] rest[j], label) by {
            assert(rest[j] == lines[j + 1]);
        }
        lemma_first_with_prefix(rest, label, i - 1);
    }
}

/// `s` with every occurrence of `pat`, from left to right and without
/// overlap, replaced by `rep`, as `str::replace` does for a non-empty pattern.
pub open spec fn replaced(s: Seq<char>, pat: Seq<char>, rep: Seq<char>) -> Seq<char>
    decreases s.len(),
{
    if s.len() == 0 {
        s
    } else if pat.len() > 0 && has_prefix(s, pat) {
        rep + replaced(s.skip(pat.len() as int), pat, rep)
    } else {
        seq![s[0]] + replaced(s.drop_first(), pat, rep)
    }
}

/// Whether `pat` occurs in `cs` at index `i`.
pub(crate) fn matches_at(cs: &Vec<char>, i: usize, pat: &Vec<char>) -> (r: bool)
    requires
        i <= cs@.len(),
    ensures
        r == has_prefix(cs@.skip(i as int), pat@),
{
    let n = cs.len();
    if pat.len() > n - i {
        return false;
    }
    let mut k: usize = 0;
    while k < pat.len()
        invariant
            n == cs@.len(),
            i <= n,
            i + pat@.len() <= n,
            k <= pat@.len() <= cs@.len() - i,
            forall|j: int| 0 <= j < k ==> cs@[i + j] == pat@[j],
        decreases pat.len() - k,
    {
        if cs[i + k] != pat[k] {
            assert(cs@.skip(i as int).take(pat@.len() as int)[k as int] != pat@[k as int]);
            return false;
        }
        k += 1;
    }
    assert(cs@.skip(i as int).take(pat@.len() as int) =~= pat@);
    true
}

/// `s` with every occurrence of the non-empty `pat` replaced by `rep`, as
/// `str::replace` does it.
pub fn replace(s: &str, pat: &str, rep: &str) -> (r: String)
    requires
        pat@.len() > 0,
    ensures
        r@ == replaced(s@, pat@, rep@),
{
    let cs = chars_of(s);
    let pc = chars_of(pat);
    let mut out = String::new();
    let mut i: usize = 0;
    assert(s@.skip(0) == s@);
    while i < cs.len()
        invariant
            i <= cs@.len(),
            cs@ == s@,
            pc@ == pat@,
            pat@.len() > 0,
            replaced(s@, pat@, rep@) == out@ + replaced(s@.skip(i as int), pat@, rep@),
        decreases cs.len() - i,
    {
        let ghost rest = s@.skip(i as int);
        let ghost before = out@;
        if matches_at(&cs, i, &pc) {
            out.append(rep);
            assert(rest.skip(pat@.len() as int) =~= s@.skip(i + pat@.len()));
            let ghost tail = replaced(s@.skip(i + pat@.len()), pat@, rep@);
            assert(before + (rep@ + tail) =~= out@ + tail);
            i = i + pc.len();
        } else {
            push_char(&mut out, cs[i]);
            assert(rest.drop_first() =~= s@.skip(i + 1));
            let ghost tail = replaced(s@.skip(i + 1), pat@, rep@);
            assert(before + (seq![rest[0]] + tail) =~= out@ + tail);
            i += 1;
        }
    }
    assert(s@.skip(i as int) == Seq::<char>::empty());
    out
}

/// Line `index` of `text`, counting from zero, where lines are the pieces
/// between newlines.
pub open spec fn line_at(text: Seq<char>, index: int) -> Option<Seq<char>> {
    let ls = pieces(text, '\n');
    if 0 <= index < ls.len() {
        Some(ls[index])
    } else {
        None
    }
}

/// Line `index` of `text`, counting from zero; `None` past the last line.
pub fn line(text: &str, index: usize) -> (r: Option<String>)
    ensures
        match r {
            Some(l) => line_at(text@, index as int) == Some(l@),
            None => line_at(text@, index as int) is None,
        },
{
    let ls = split(text, '\n');
    if index < ls.len() {
        assert(ls@[index as int]@ == views(ls@)[index as int]);
        Some(ls[index].clone())
    } else {
        None
    }
}

/// Piece `index` of `s` split at `sep`, where there is one.
pub open spec fn piece_at(s: Seq<char>, sep: char, index: int) -> Option<Seq<char>> {
    let p = pieces(s, sep);
    if 0 <= index < p.len() {
        Some(p[index])
    } else {
        None
    }
}

/// Piece `index` of `s` split at `sep`; `None` where there are fewer pieces.
pub fn piece(s: &str, sep: char, index: usize) -> (r: Option<String>)
    ensures
        match r {
            Some(p) => piece_at(s@, sep, index as int) == Some(p@),
            None => piece_at(s@, sep, index as int) is None,
        },
{
    let ps = split(s, sep);
    if index < ps.len() {
        assert(ps@[index as int]@ == views(ps@)[index as int]);
        Some(ps[index].clone())
    } else {
        None
    }
}

} // verus!
