//! Lexical extraction of embedded query snippets from arbitrary text.
//!
//! Two marker forms are recognized: a call-style marker (`graphql`, optional
//! whitespace, `(`, then an opening backtick) and a tag-style marker (`gql`,
//! optional whitespace, then an opening backtick). A snippet is the text
//! strictly between the opening backtick and the first backtick after it;
//! a marker whose opening backtick is never closed yields nothing. The scan
//! moves sequentially through the text and never re-enters a consumed
//! range. This is a best-effort textual scan, not a grammar-aware embedded
//! language extractor: backticks inside a snippet are not escapable.

use vstd::prelude::*;

verus! {

/// Whitespace accepted between a marker word and what follows it.
pub open spec fn is_marker_space(c: char) -> bool {
    c == ' ' || c == '\t' || c == '\n' || c == '\r' || c == '\u{b}' || c == '\u{c}'
}

/// The first index at or after `i` holding a non-space character, or
/// `s.len()` if only spaces remain.
pub open spec fn skip_spaces(s: Seq<char>, i: int) -> int
    decreases s.len() - i,
{
    if 0 <= i < s.len() && is_marker_space(s[i]) {
        skip_spaces(s, i + 1)
    } else {
        i
    }
}

/// A call-style marker at `i`: `graphql`, optional whitespace, `(`, then an
/// opening backtick.
pub open spec fn graphql_call_at(s: Seq<char>, i: int) -> bool {
    let j = skip_spaces(s, i + 7);
    &&& 0 <= i
    &&& i + 7 <= s.len()
    &&& s[i] == 'g' && s[i + 1] == 'r' && s[i + 2] == 'a' && s[i + 3] == 'p'
    &&& s[i + 4] == 'h' && s[i + 5] == 'q' && s[i + 6] == 'l'
    &&& j + 1 < s.len() && s[j] == '(' && s[j + 1] == '`'
}

/// A tag-style marker at `i`: `gql`, optional whitespace, then an opening
/// backtick.
pub open spec fn gql_tag_at(s: Seq<char>, i: int) -> bool {
    let j = skip_spaces(s, i + 3);
    &&& 0 <= i
    &&& i + 3 <= s.len()
    &&& s[i] == 'g' && s[i + 1] == 'q' && s[i + 2] == 'l'
    &&& j < s.len() && s[j] == '`'
}

/// If a marker begins at `i`, the index of the first content character, the
/// one right after the opening backtick.
pub open spec fn marker_open(s: Seq<char>, i: int) -> Option<int> {
    if graphql_call_at(s, i) {
        Option::Some(skip_spaces(s, i + 7) + 2)
    } else if gql_tag_at(s, i) {
        Option::Some(skip_spaces(s, i + 3) + 1)
    } else {
        Option::None
    }
}

/// The index of the first backtick at or after `i`, if any.
pub open spec fn first_backtick(s: Seq<char>, i: int) -> Option<int>
    decreases s.len() - i,
{
    if !(0 <= i < s.len()) {
        Option::None
    } else if s[i] == '`' {
        Option::Some(i)
    } else {
        first_backtick(s, i + 1)
    }
}

/// A marker at `i` whose opening backtick is closed somewhere after it.
pub open spec fn wf_marker_at(s: Seq<char>, i: int) -> bool {
    match marker_open(s, i) {
        Option::Some(o) => first_backtick(s, o) is Some,
        Option::None => false,
    }
}

pub proof fn lemma_skip_spaces_bounds(s: Seq<char>, i: int)
    requires
        0 <= i <= s.len(),
    ensures
        i <= skip_spaces(s, i) <= s.len(),
    decreases s.len() - i,
{
    if i < s.len() && is_marker_space(s[i]) {
        lemma_skip_spaces_bounds(s, i + 1);
    }
}

pub proof fn lemma_marker_open_bounds(s: Seq<char>, i: int, o: int)
    requires
        marker_open(s, i) == Option::Some(o),
    ensures
        i + 4 <= o <= s.len(),
{
    if graphql_call_at(s, i) {
        lemma_skip_spaces_bounds(s, i + 7);
    } else {
        lemma_skip_spaces_bounds(s, i + 3);
    }
}

pub proof fn lemma_first_backtick_bounds(s: Seq<char>, i: int, k: int)
    requires
        first_backtick(s, i) == Option::Some(k),
    ensures
        i <= k < s.len(),
        s[k] == '`',
        forall|t: int| i <= t < k ==> s[t] != '`',
    decreases s.len() - i,
{
    if 0 <= i < s.len() && s[i] != '`' {
        lemma_first_backtick_bounds(s, i + 1, k);
    }
}

/// Every snippet the scan yields from position `i` on: at each position, a
/// well-formed marker opens a snippet closed by the first backtick after
/// its opening one, and the scan resumes right after that closing backtick;
/// everywhere else the scan moves one character on.
pub open spec fn scan(s: Seq<char>, i: int) -> Seq<Seq<char>>
    decreases s.len() - i,
{
    if !(0 <= i < s.len()) {
        Seq::empty()
    } else {
        match marker_open(s, i) {
            Option::Some(o) => match first_backtick(s, o) {
                Option::Some(k) => {
                    proof {
                        lemma_marker_open_bounds(s, i, o);
                        lemma_first_backtick_bounds(s, o, k);
                    }
                    seq![s.subrange(o, k)] + scan(s, k + 1)
                },
                Option::None => scan(s, i + 1),
            },
            Option::None => scan(s, i + 1),
        }
    }
}

/// The sequence of snippets the extractor yields for `s`.
pub open spec fn extracted(s: Seq<char>) -> Seq<Seq<char>> {
    scan(s, 0)
}

/// Whitespace accepted between a marker word and what follows it.
fn is_marker_space_char(c: char) -> (r: bool)
    ensures
        r == is_marker_space(c),
{
    c == ' ' || c == '\t' || c == '\n' || c == '\r' || c == '\u{b}' || c == '\u{c}'
}

/// The first index at or after `i` holding a non-space character.
fn skip_spaces_from(s: &str, len: usize, i: usize) -> (r: usize)
    requires
        len == s@.len(),
        i <= len,
    ensures
        r == skip_spaces(s@, i as int),
        i <= r <= len,
{
    let mut j: usize = i;
    loop
        invariant
            i <= j <= len,
            len == s@.len(),
            skip_spaces(s@, i as int) == skip_spaces(s@, j as int),
        decreases len - j,
    {
        if j == len {
            return j;
        }
        if !is_marker_space_char(s.get_char(j)) {
            return j;
        }
        j = j + 1;
    }
}

/// The index of the first backtick at or after `i`, if any.
fn first_backtick_from(s: &str, len: usize, i: usize) -> (r: Option<usize>)
    requires
        len == s@.len(),
        i <= len,
    ensures
        (match r {
            Option::Some(k) => first_backtick(s@, i as int) == Option::Some(k as int),
            Option::None => first_backtick(s@, i as int) is None,
        }),
{
    let mut j: usize = i;
    loop
        invariant
            i <= j <= len,
            len == s@.len(),
            first_backtick(s@, i as int) == first_backtick(s@, j as int),
        decreases len - j,
    {
        if j == len {
            return Option::None;
        }
        if s.get_char(j) == '`' {
            return Option::Some(j);
        }
        j = j + 1;
    }
}

/// If a marker begins at `i`, the index of the first content character.
fn marker_open_at(s: &str, len: usize, i: usize) -> (r: Option<usize>)
    requires
        len == s@.len(),
        i < len,
    ensures
        (match r {
            Option::Some(o) => marker_open(s@, i as int) == Option::Some(o as int),
            Option::None => marker_open(s@, i as int) is None,
        }),
{
    let call_marker = len - i >= 7 && s.get_char(i) == 'g' && s.get_char(i + 1) == 'r'
        && s.get_char(i + 2) == 'a' && s.get_char(i + 3) == 'p' && s.get_char(i + 4) == 'h'
        && s.get_char(i + 5) == 'q' && s.get_char(i + 6) == 'l';
    if call_marker {
        let j = skip_spaces_from(s, len, i + 7);
        if j < len && s.get_char(j) == '(' && len - j >= 2 && s.get_char(j + 1) == '`' {
            return Option::Some(j + 2);
        }
        return Option::None;
    }
    let tag_marker = len - i >= 3 && s.get_char(i) == 'g' && s.get_char(i + 1) == 'q'
        && s.get_char(i + 2) == 'l';
    if tag_marker {
        let j = skip_spaces_from(s, len, i + 3);
        if j < len && s.get_char(j) == '`' {
            return Option::Some(j + 1);
        }
        return Option::None;
    }
    Option::None
}

/// All snippets embedded in `content`, in order of first appearance: each
/// is the text strictly between a marker's opening backtick and the first
/// backtick after it.
pub fn extract_graphql_queries(content: &str) -> (r: Vec<String>)
    ensures
        r.deep_view() == extracted(content@),
{
    let len = content.unicode_len();
    let mut out: Vec<String> = Vec::new();
    let mut i: usize = 0;
    while i < len
        invariant
            len == content@.len(),
            i <= len,
            out.deep_view() + scan(content@, i as int) == extracted(content@),
        decreases len - i,
    {
        let ghost prev = out.deep_view();
        match marker_open_at(content, len, i) {
            Option::Some(o) => {
                match first_backtick_from(content, len, o) {
                    Option::Some(k) => {
                        proof {
                            lemma_marker_open_bounds(content@, i as int, o as int);
                            lemma_first_backtick_bounds(content@, o as int, k as int);
                        }
                        let snippet = content.substring_char(o, k);
                        let owned = String::from_str(snippet);
                        out.push(owned);
                        proof {
                            assert(out.deep_view() =~= prev.push(content@.subrange(o as int, k as int)));
                            assert(scan(content@, i as int) == seq![
                                content@.subrange(o as int, k as int),
                            ] + scan(content@, k as int + 1));
                            assert(out.deep_view() + scan(content@, k as int + 1) =~= prev + scan(
                                content@,
                                i as int,
                            ));
                        }
                        i = k + 1;
                    },
                    Option::None => {
                        i = i + 1;
                    },
                }
            },
            Option::None => {
                i = i + 1;
            },
        }
    }
    proof {
        assert(out.deep_view() + scan(content@, i as int) =~= out.deep_view());
    }
    out
}

/// No snippet comes from text holding no recognized marker.
pub proof fn lemma_no_marker_no_snippet(s: Seq<char>)
    requires
        forall|t: int| 0 <= t < s.len() ==> marker_open(s, t) is None,
    ensures
        extracted(s) == Seq::<Seq<char>>::empty(),
{
    lemma_scan_skips(s, 0, s.len() as int);
}

/// A scan region without a well-formed marker contributes no snippet.
proof fn lemma_scan_skips(s: Seq<char>, i: int, m: int)
    requires
        0 <= i <= m <= s.len(),
        forall|t: int| i <= t < m ==> !wf_marker_at(s, t),
    ensures
        scan(s, i) == scan(s, m),
    decreases m - i,
{
    if i < m {
        assert(!wf_marker_at(s, i));
        match marker_open(s, i) {
            Option::Some(o) => {
                assert(first_backtick(s, o) is None);
                assert(scan(s, i) == scan(s, i + 1));
            },
            Option::None => {
                assert(scan(s, i) == scan(s, i + 1));
            },
        }
        lemma_scan_skips(s, i + 1, m);
    }
}

/// Text whose only well-formed marker sits at `m`, with its opening
/// backtick ending at content position `o` and first closing backtick at
/// `k`, yields exactly the one snippet between `o` and `k`.
pub proof fn lemma_single_marker_yields_content(s: Seq<char>, m: int, o: int, k: int)
    requires
        0 <= m < s.len(),
        marker_open(s, m) == Option::Some(o),
        first_backtick(s, o) == Option::Some(k),
        forall|t: int| 0 <= t < s.len() && t != m ==> !wf_marker_at(s, t),
    ensures
        extracted(s) == seq![s.subrange(o, k)],
{
    lemma_marker_open_bounds(s, m, o);
    lemma_first_backtick_bounds(s, o, k);
    lemma_scan_skips(s, 0, m);
    assert(scan(s, m) == seq![s.subrange(o, k)] + scan(s, k + 1));
    lemma_scan_skips(s, k + 1, s.len() as int);
    assert(extracted(s) =~= seq![s.subrange(o, k)]);
}

} // verus!
