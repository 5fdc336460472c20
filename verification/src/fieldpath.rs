//! Splitting a dotted path string into its ordered field-name segments.
//!
//! The convention for callers: a user-supplied string such as
//! `user.profile.email` is split on every `.`. The result is never empty —
//! even the empty string yields one (empty) segment — so it always meets
//! the matcher's demand for a non-empty path.

use vstd::prelude::*;

verus! {

/// The segments produced from `s` when the current segment began at
/// `start` and the scan stands at `i`: every `.` ends a segment, and the
/// end of the text ends the last one.
pub open spec fn split_from(s: Seq<char>, start: int, i: int) -> Seq<Seq<char>>
    decreases s.len() - i,
{
    if !(0 <= start <= i <= s.len()) {
        Seq::empty()
    } else if i == s.len() {
        seq![s.subrange(start, i)]
    } else if s[i] == '.' {
        seq![s.subrange(start, i)] + split_from(s, i + 1, i + 1)
    } else {
        split_from(s, start, i + 1)
    }
}

/// The dotted-path segments of `s`: the pieces of `s` between its dots, in
/// order, dots excluded. Splitting never yields an empty sequence.
pub open spec fn split_segments(s: Seq<char>) -> Seq<Seq<char>> {
    split_from(s, 0, 0)
}

proof fn lemma_split_from_nonempty(s: Seq<char>, start: int, i: int)
    requires
        0 <= start <= i <= s.len(),
    ensures
        split_from(s, start, i).len() >= 1,
    decreases s.len() - i,
{
    if i == s.len() {
    } else if s[i] == '.' {
    } else {
        lemma_split_from_nonempty(s, start, i + 1);
    }
}

/// Splitting any string yields at least one segment.
pub proof fn lemma_split_segments_nonempty(s: Seq<char>)
    ensures
        split_segments(s).len() >= 1,
{
    lemma_split_from_nonempty(s, 0, 0);
}

/// The ordered segments of the dotted path `s`, split on every `.`. The
/// result always holds at least one segment, so it is always an acceptable
/// path for the matcher.
pub fn split_path(s: &str) -> (r: Vec<String>)
    ensures
        r.deep_view() == split_segments(s@),
        r@.len() >= 1,
{
    let len = s.unicode_len();
    let mut out: Vec<String> = Vec::new();
    let mut start: usize = 0;
    let mut i: usize = 0;
    while i < len
        invariant
            len == s@.len(),
            start <= i <= len,
            out.deep_view() + split_from(s@, start as int, i as int) == split_segments(s@),
        decreases len - i,
    {
        let ghost prev = out.deep_view();
        if s.get_char(i) == '.' {
            let seg = s.substring_char(start, i);
            out.push(String::from_str(seg));
            proof {
                assert(out.deep_view() =~= prev.push(s@.subrange(start as int, i as int)));
                assert(out.deep_view() + split_from(s@, i as int + 1, i as int + 1) =~= prev
                    + split_from(s@, start as int, i as int));
            }
            start = i + 1;
        }
        i = i + 1;
    }
    let ghost prev = out.deep_view();
    let seg = s.substring_char(start, len);
    out.push(String::from_str(seg));
    proof {
        assert(out.deep_view() =~= prev.push(s@.subrange(start as int, len as int)));
        lemma_split_segments_nonempty(s@);
    }
    out
}

} // verus!
