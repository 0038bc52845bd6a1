use vstd::prelude::*;
use crate::text::{chars_of, has_prefix, matches_at, string_of};

verus! {

/// Whether `pat` occurs somewhere in `s`.
pub open spec fn occurs_in(s: Seq<char>, pat: Seq<char>) -> bool {
    exists|k: int| 0 <= k <= s.len() - pat.len() && #[trigger] has_prefix(s.skip(k), pat)
}

/// Whether `pat` occurs somewhere in `s`, as `str::contains` tells it.
pub fn contains(s: &str, pat: &str) -> (r: bool)
    ensures
        r == occurs_in(s@, pat@),
{
    let cs = chars_of(s);
    let pc = chars_of(pat);
    if pc.len() == 0 {
        assert(s@.skip(0).take(0) =~= pat@);
        assert(has_prefix(s@.skip(0), pat@));
        return true;
    }
    let n = cs.len();
    if pc.len() > n {
        assert(!occurs_in(s@, pat@));
        return false;
    }
    let last = n - pc.len();
    let mut k: usize = 0;
    while k <= last
        invariant
            cs@ == s@,
            pc@ == pat@,
            n == cs@.len(),
            pc@.len() > 0,
            last + pc@.len() == n,
            k <= last + 1,
            forall|j: int| 0 <= j < k ==> !#[trigger] has_prefix(s@.skip(j), pat@),
        decreases last + 1 - k,
    {
        if matches_at(&cs, k, &pc) {
            return true;
        }
        k += 1;
    }
    false
}

/// The least index from `k` on where `pat` occurs in `s`.
pub open spec fn find_from(s: Seq<char>, pat: Seq<char>, k: int) -> Option<int>
    decreases s.len() + 1 - k,
{
    if k < 0 || k + pat.len() > s.len() {
        None
    } else if has_prefix(s.skip(k), pat) {
        Some(k)
    } else {
        find_from(s, pat, k + 1)
    }
}

/// The least index from `k` on where `pat` occurs in `cs`.
pub fn find(cs: &Vec<char>, pat: &Vec<char>, k: usize) -> (r: Option<usize>)
    requires
        k <= cs@.len(),
        pat@.len() > 0,
    ensures
        match r {
            Some(i) => find_from(cs@, pat@, k as int) == Some(i as int),
            None => find_from(cs@, pat@, k as int) is None,
        },
{
    let n = cs.len();
    if pat.len() > n {
        return None;
    }
    let last = n - pat.len();
    if k > last {
        return None;
    }
    let mut i = k;
    while i <= last
        invariant
            n == cs@.len(),
            last + pat@.len() == n,
            pat@.len() > 0,
            k <= i,
            i <= last + 1,
            find_from(cs@, pat@, k as int) == find_from(cs@, pat@, i as int),
        decreases last + 1 - i,
    {
        if matches_at(cs, i, pat) {
            return Some(i);
        }
        i += 1;
    }
    None
}

/// Piece 1 of `s` split at the string `pat`, as `str::split` with a string
/// pattern gives it: from the end of the first occurrence to the start of the
/// next (or the end of `s`).
pub open spec fn second_piece(s: Seq<char>, pat: Seq<char>) -> Option<Seq<char>> {
    match find_from(s, pat, 0) {
        None => None,
        Some(a) => {
            let b = a + pat.len();
            match find_from(s, pat, b) {
                Some(e) => Some(s.subrange(b, e)),
                None => Some(s.subrange(b, s.len() as int)),
            }
        },
    }
}

proof fn lemma_find_from_bounds(s: Seq<char>, pat: Seq<char>, k: int)
    ensures
        find_from(s, pat, k) matches Some(i) ==> k <= i && i + pat.len() <= s.len(),
    decreases s.len() + 1 - k,
{
    if !(k < 0 || k + pat.len() > s.len()) && !has_prefix(s.skip(k), pat) {
        lemma_find_from_bounds(s, pat, k + 1);
    }
}

/// Piece 1 of `s` split at the non-empty string `pat`.
pub fn split_second(s: &str, pat: &str) -> (r: Option<String>)
    requires
        pat@.len() > 0,
    ensures
        match r {
            Some(p) => second_piece(s@, pat@) == Some(p@),
            None => second_piece(s@, pat@) is None,
        },
{
    let cs = chars_of(s);
    let pc = chars_of(pat);
    let n = cs.len();
    proof {
        lemma_find_from_bounds(s@, pat@, 0);
    }
    match find(&cs, &pc, 0) {
        None => None,
        Some(a) => {
            let b = a + pc.len();
            proof {
                lemma_find_from_bounds(s@, pat@, b as int);
            }
            match find(&cs, &pc, b) {
                Some(e) => Some(string_of(&cs, b, e)),
                None => Some(string_of(&cs, b, n)),
            }
        },
    }
}

} // verus!
