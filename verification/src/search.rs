//! Finding files of the workspace by a few letters of their path.

use crate::text::{name_views, same_text};
use vstd::prelude::*;

verus! {

/// The longest search term that is ranked, in characters: the length up to
/// which the matcher looks for a word with its exact algorithm. The matcher
/// adds up the points of a word in 16 bits, at most 50 for its first
/// character and 25 for each other, and the points of the term's words in 32
/// bits; within this length neither sum overflows.
pub const MAX_TERM_LENGTH: usize = 2048;

/// The longest path that is ranked, in characters. Where prefixes are
/// preferred the matcher charges a match that starts at position `start`
/// three points for each position before it, `3 + 3 * (start - 1)` in 16
/// bits; a path within this length has no position for which that overflows.
pub const MAX_PATH_LENGTH: usize = 21846;

/// Whether the matcher finds the term in the path, as
/// `nucleo_matcher::pattern::Pattern::score` tells by giving a score for the
/// term, parsed with case ignored and smart normalization. Whether it does
/// depends on the characters of the two alone; how high it scores does not.
pub uninterp spec fn term_matches(term: Seq<char>, path: Seq<char>) -> bool;

/// The paths in which the matcher finds the term, in the order given.
pub open spec fn matching(term: Seq<char>, paths: Seq<Seq<char>>) -> Seq<Seq<char>> {
    paths.filter(|path: Seq<char>| term_matches(term, path))
}

/// The paths of ranked items, in their order.
pub open spec fn ranked_paths(ranked: Seq<(String, u32)>) -> Seq<Seq<char>> {
    ranked.map_values(|item: (String, u32)| item.0@)
}

/// Whether a term and the paths are within what the matcher takes.
pub open spec fn rankable(term: Seq<char>, paths: Seq<String>) -> bool {
    &&& term.len() <= MAX_TERM_LENGTH
    &&& forall|i: int| 0 <= i < paths.len() ==> (#[trigger] paths[i])@.len() <= MAX_PATH_LENGTH
}

/// What a ranking of paths for a term is: it holds the paths in which the
/// matcher finds the term, each as often as it was given, and no others, the
/// higher score first.
pub open spec fn ranks(ranked: Seq<(String, u32)>, term: Seq<char>, paths: Seq<String>) -> bool {
    &&& ranked.len() <= paths.len()
    &&& forall|i: int| 0 <= i < ranked.len() ==> term_matches(term, (#[trigger] ranked[i]).0@)
    &&& ranked_paths(ranked).to_multiset() == matching(term, name_views(paths)).to_multiset()
    &&& forall|i: int, j: int| 0 <= i <= j < ranked.len() ==> ranked[i].1 >= ranked[j].1
}

/// Whether the walk over the workspace goes on with an entry: it passes over
/// the directories `target`, `node_modules`, `.git` and `.venv`, with all
/// that is in them, and takes every other entry.
pub open spec fn walked(name: Seq<char>, is_dir: bool) -> bool {
    !(is_dir && (name == "target"@ || name == "node_modules"@ || name == ".git"@ || name
        == ".venv"@))
}

/// The filter of the walk over the workspace: `false` for an entry that the
/// walk ignores, `true` for one that it goes on with.
pub fn is_ignored(name: &str, is_dir: bool) -> (r: bool)
    ensures
        r == walked(name@, is_dir),
{
    if is_dir && (same_text(name, "target") || same_text(name, "node_modules") || same_text(
        name,
        ".git",
    ) || same_text(name, ".venv")) {
        return false;
    }
    true
}

/// Calls `nucleo_matcher::pattern::Pattern::parse` and `match_list` on it,
/// with a matcher for paths that prefers prefixes, ignores case and
/// normalizes smartly. `match_list` scores every item with `Pattern::score`,
/// leaves out those that get no score, and sorts the others by falling score.
/// The scores depend on the platform's path separators, so nothing more is
/// said of them. The matcher panics on an item of more than `u32::MAX`
/// characters, and its 16-bit sums may overflow on a path that is longer than
/// [`MAX_PATH_LENGTH`] or a term that is longer than [`MAX_TERM_LENGTH`].
#[verifier::external_body]
fn rank(term: &str, paths: Vec<String>) -> (r: Vec<(String, u32)>)
    requires
        rankable(term@, paths@),
    ensures
        r.len() <= paths.len(),
        forall|i: int| 0 <= i < r.len() ==> term_matches(term@, (#[trigger] r[i]).0@),
        ranked_paths(r@).to_multiset() == matching(term@, name_views(paths@)).to_multiset(),
        forall|i: int, j: int| 0 <= i <= j < r.len() ==> r[i].1 >= r[j].1,
{
    let mut matcher = nucleo_matcher::Matcher::new(nucleo_matcher::Config::DEFAULT.match_paths());
    matcher.config.prefer_prefix = true;
    nucleo_matcher::pattern::Pattern::parse(
        term,
        nucleo_matcher::pattern::CaseMatching::Ignore,
        nucleo_matcher::pattern::Normalization::Smart,
    ).match_list(paths, &mut matcher)
}

/// The paths that match a search term, each with its score, the higher
/// score first.
pub fn ranked_search(term: &str, paths: Vec<String>) -> (r: Vec<(String, u32)>)
    requires
        rankable(term@, paths@),
    ensures
        ranks(r@, term@, paths@),
{
    rank(term, paths)
}

/// The paths of ranked items, in their order, without the scores.
pub fn paths_of(ranked: Vec<(String, u32)>) -> (r: Vec<String>)
    ensures
        name_views(r@) == ranked_paths(ranked@),
{
    let mut out: Vec<String> = Vec::new();
    let mut i: usize = 0;
    while i < ranked.len()
        invariant
            i <= ranked.len(),
            out.len() == i,
            forall|j: int| 0 <= j < i ==> out[j]@ == ranked[j].0@,
        decreases ranked.len() - i,
    {
        out.push(ranked[i].0.clone());
        i += 1;
    }
    assert(name_views(out@) =~= ranked_paths(ranked@));
    out
}

/// The paths that match a search term, the best match first: every path
/// in which the matcher finds the term, as often as it was given, and no
/// other.
pub fn fuzzy_search(term: &str, paths: Vec<String>) -> (r: Vec<String>)
    requires
        rankable(term@, paths@),
    ensures
        r.len() <= paths.len(),
        forall|i: int| 0 <= i < r.len() ==> term_matches(term@, (#[trigger] r[i])@),
        name_views(r@).to_multiset() == matching(term@, name_views(paths@)).to_multiset(),
{
    let ranked = ranked_search(term, paths);
    let found = paths_of(ranked);
    assert(name_views(found@).len() == ranked_paths(ranked@).len());
    assert forall|i: int| 0 <= i < found.len() implies term_matches(
        term@,
        (#[trigger] found[i])@,
    ) by {
        assert(name_views(found@)[i] == ranked_paths(ranked@)[i]);
        assert(term_matches(term@, ranked[i].0@));
    }
    found
}

/// Whether a term and the paths are within what the matcher takes.
pub fn is_rankable(term: &str, paths: &Vec<String>) -> (r: bool)
    ensures
        r == rankable(term@, paths@),
{
    if term.unicode_len() > MAX_TERM_LENGTH {
        return false;
    }
    let mut i: usize = 0;
    while i < paths.len()
        invariant
            i <= paths.len(),
            forall|j: int| 0 <= j < i ==> (#[trigger] paths[j])@.len() <= MAX_PATH_LENGTH,
        decreases paths.len() - i,
    {
        if paths[i].as_str().unicode_len() > MAX_PATH_LENGTH {
            return false;
        }
        i += 1;
    }
    true
}

/// The paths that match a search term, the best match first; `None` where
/// the term or a path is more than the matcher takes.
pub fn try_fuzzy_search(term: &str, paths: Vec<String>) -> (r: Option<Vec<String>>)
    ensures
        r is Some <==> rankable(term@, paths@),
        match r {
            Some(found) => {
                &&& found.len() <= paths.len()
                &&& forall|i: int|
                    0 <= i < found.len() ==> term_matches(term@, (#[trigger] found[i])@)
                &&& name_views(found@).to_multiset() == matching(
                    term@,
                    name_views(paths@),
                ).to_multiset()
            },
            None => true,
        },
{
    if is_rankable(term, &paths) {
        Some(fuzzy_search(term, paths))
    } else {
        None
    }
}

} // verus!
