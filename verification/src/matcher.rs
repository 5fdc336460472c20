//! Matching a dotted field path against a query document.
//!
//! A path such as `user.profile.email` is a non-empty sequence of field
//! names. A selection chain matches it when the names of a chain of nested
//! `Field` selections equal the path's segments in order, starting from a
//! root selection of some definition. Inline fragments are transparent: they
//! pass the path through unchanged. Fragment spreads are never resolved and
//! therefore never contribute to a match; this deliberately undercounts
//! queries that reach the target field only through a named fragment.

use vstd::prelude::*;
use vstd::slice::slice_subrange;

use crate::ast::{Definition, Document, Selection};

verus! {

/// Whether the selection `sel` satisfies `path`: `sel` must be a `Field`
/// whose name equals `path[0]`, and either that was the last segment, or
/// some child selection satisfies the rest of the path. An inline fragment
/// satisfies `path` when one of its children does (same, unadvanced path);
/// a fragment spread never does. Meaningful for non-empty `path` only.
pub open spec fn sel_matches(sel: Selection, path: Seq<Seq<char>>) -> bool
    decreases sel,
{
    match sel {
        Selection::Field { name, children } => {
            &&& name@ == path[0]
            &&& (path.len() == 1 || set_matches(children@, path.skip(1)))
        },
        Selection::InlineFragment { children, .. } => set_matches(children@, path),
        Selection::FragmentSpread { .. } => false,
    }
}

/// Whether at least one selection of `sels` satisfies `path`.
pub open spec fn set_matches(sels: Seq<Selection>, path: Seq<Seq<char>>) -> bool
    decreases sels,
{
    exists|i: int| 0 <= i < sels.len() && sel_matches(#[trigger] sels[i], path)
}

/// Whether some definition of `doc` has a root selection satisfying `path`.
pub open spec fn doc_matches(doc: Document, path: Seq<Seq<char>>) -> bool {
    exists|i: int|
        0 <= i < doc.definitions@.len() && set_matches(
            (#[trigger] doc.definitions@[i]).spec_root(),
            path,
        )
}

/// Whether a parse outcome matches: an unparsable snippet (`None`) never
/// does; a parsed document matches when `doc_matches` says so.
pub open spec fn opt_doc_matches(doc: Option<Document>, path: Seq<Seq<char>>) -> bool {
    match doc {
        Option::Some(d) => doc_matches(d, path),
        Option::None => false,
    }
}

/// A fragment spread never satisfies any path: spreads are not resolved
/// against their definitions, a deliberate conservative false negative.
pub proof fn lemma_fragment_spread_never_matches(name: String, path: Seq<Seq<char>>)
    ensures
        !sel_matches((Selection::FragmentSpread { name }), path),
{
}

/// An inline fragment is transparent to matching: it satisfies `path`
/// exactly when one of its children satisfies the same, unadvanced path.
pub proof fn lemma_inline_fragment_transparent(
    type_condition: Option<String>,
    children: Vec<Selection>,
    path: Seq<Seq<char>>,
)
    ensures
        sel_matches((Selection::InlineFragment { type_condition, children }), path) == set_matches(
            children@,
            path,
        ),
{
}

/// A field selection satisfies a non-empty `path` exactly when its name
/// equals the first segment and either that segment was the last or some
/// child satisfies the remaining segments. Together with the two lemmas
/// above and the definition of `set_matches`, this pins matching down to
/// the existence of a chain of fields named as the path says, inline
/// fragments skipped and spreads never contributing.
pub proof fn lemma_field_match_unfolds(name: String, children: Vec<Selection>, path: Seq<Seq<char>>)
    requires
        path.len() > 0,
    ensures
        sel_matches((Selection::Field { name, children }), path) == (name@ == path[0] && (path.len()
            == 1 || set_matches(children@, path.skip(1)))),
{
}

/// Matching is a pure function of document and path: any two results that
/// meet `query_contains_path`'s contract on the same inputs are equal, so
/// running the matcher twice yields the same answer.
pub proof fn lemma_contains_path_deterministic(
    doc: Document,
    path: Seq<Seq<char>>,
    r1: bool,
    r2: bool,
)
    requires
        r1 == doc_matches(doc, path),
        r2 == doc_matches(doc, path),
    ensures
        r1 == r2,
{
}

/// Whether the selection `sel` satisfies the field path `path`.
pub fn field_path_exists(sel: &Selection, path: &[String]) -> (r: bool)
    requires
        path@.len() > 0,
    ensures
        r == sel_matches(*sel, path.deep_view()),
    decreases *sel,
{
    match sel {
        Selection::Field { name, children } => {
            if !(*name == path[0]) {
                false
            } else if path.len() == 1 {
                true
            } else {
                let rest = slice_subrange(path, 1, path.len());
                proof {
                    assert(rest.deep_view() =~= path.deep_view().skip(1));
                }
                selection_set_matches(children, rest)
            }
        },
        Selection::InlineFragment { children, .. } => selection_set_matches(children, path),
        Selection::FragmentSpread { .. } => false,
    }
}

/// Whether at least one selection of `sels` satisfies `path`.
pub fn selection_set_matches(sels: &Vec<Selection>, path: &[String]) -> (r: bool)
    requires
        path@.len() > 0,
    ensures
        r == set_matches(sels@, path.deep_view()),
    decreases sels@,
{
    let mut j: usize = 0;
    while j < sels.len()
        invariant
            0 <= j <= sels@.len(),
            path@.len() > 0,
            forall|t: int| 0 <= t < j ==> !sel_matches(#[trigger] sels@[t], path.deep_view()),
        decreases sels@.len() - j,
    {
        if field_path_exists(&sels[j], path) {
            return true;
        }
        j += 1;
    }
    false
}

/// Whether any definition of `doc` contains a selection chain matching
/// `path` from its root. All operation kinds and top-level fragment
/// definitions are searched uniformly.
pub fn query_contains_path(doc: &Document, path: &[String]) -> (r: bool)
    requires
        path@.len() > 0,
    ensures
        r == doc_matches(*doc, path.deep_view()),
{
    let mut i: usize = 0;
    while i < doc.definitions.len()
        invariant
            0 <= i <= doc.definitions@.len(),
            path@.len() > 0,
            forall|t: int|
                0 <= t < i ==> !set_matches(
                    (#[trigger] doc.definitions@[t]).spec_root(),
                    path.deep_view(),
                ),
        decreases doc.definitions@.len() - i,
    {
        if selection_set_matches(doc.definitions[i].root_selections(), path) {
            return true;
        }
        i += 1;
    }
    false
}

/// Whether any successfully parsed snippet of a file matches `path`:
/// `docs` holds one parse outcome per extracted snippet, `None` for a
/// snippet the parser rejected.
pub fn any_document_matches(docs: &Vec<Option<Document>>, path: &[String]) -> (r: bool)
    requires
        path@.len() > 0,
    ensures
        r == exists|i: int| 0 <= i < docs@.len() && opt_doc_matches(#[trigger] docs@[i], path.deep_view()),
{
    let mut i: usize = 0;
    while i < docs.len()
        invariant
            0 <= i <= docs@.len(),
            path@.len() > 0,
            forall|t: int| 0 <= t < i ==> !opt_doc_matches(#[trigger] docs@[t], path.deep_view()),
        decreases docs@.len() - i,
    {
        match &docs[i] {
            Option::Some(d) => {
                if query_contains_path(d, path) {
                    return true;
                }
            },
            Option::None => {},
        }
        i += 1;
    }
    false
}

} // verus!
