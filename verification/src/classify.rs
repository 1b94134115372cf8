//! Classification of reference URLs.
//!
//! Two independent questions are asked of a URL: does it point at a commit,
//! and does it point at a pull request. Both are answered by first-match
//! substring search, not by parsing the URL.

use crate::text::{
    chars_of, contains, find_from, first_from, first_index, lemma_first_from_meaning, matches_at,
    measure_run, occurs_at, run_length, DigitClass,
};
use vstd::prelude::*;
use vstd::string::StrSliceExecFns;

verus! {

/// The shortest abbreviated commit hash that is accepted.
pub const MIN_HASH_LEN: usize = 7;

/// The length of a full commit hash, the longest that is accepted.
pub const MAX_HASH_LEN: usize = 40;

/// The path segment that marks a URL as belonging to a pull request.
pub open spec fn pull_segment() -> Seq<char> {
    "/pull/"@
}

/// The text whose first occurrence is taken for the commit path.
pub open spec fn commit_marker() -> Seq<char> {
    "/commit"@
}

/// The text whose first occurrence is taken for the pull-request path.
pub open spec fn pull_marker() -> Seq<char> {
    "/pull"@
}

/// Where the digits are expected once `marker` was found at `at`: behind
/// `plural` if that is what stands at `at`, else behind `singular` if that
/// does; nowhere if neither stands there.
pub open spec fn digits_start(
    url: Seq<char>,
    at: int,
    plural: Seq<char>,
    singular: Seq<char>,
) -> Option<int> {
    if occurs_at(url, plural, at) {
        Some(at + plural.len())
    } else if occurs_at(url, singular, at) {
        Some(at + singular.len())
    } else {
        None
    }
}

/// The index at which the commit hash of `url` would start: behind the
/// `/commits/` or `/commit/` that stands at the first `/commit`.
pub open spec fn commit_hash_start(url: Seq<char>) -> Option<int> {
    match first_index(url, commit_marker()) {
        Some(at) => digits_start(url, at, "/commits/"@, "/commit/"@),
        None => None,
    }
}

/// `url` denotes a commit: it has no `/pull/` in it, and behind its first
/// commit path stand between 7 and 40 hexadecimal digits, counted up to the
/// first character that is not one.
pub open spec fn is_commit_url(url: Seq<char>) -> bool {
    &&& !contains(url, pull_segment())
    &&& commit_hash_start(url) matches Some(start)
    &&& MIN_HASH_LEN <= run_length(url, start, DigitClass::Hex) <= MAX_HASH_LEN
}

/// The commit references that `url` contributes: the URL itself, unchanged,
/// if it denotes a commit.
pub open spec fn commit_references(url: Seq<char>) -> Option<Seq<Seq<char>>> {
    if is_commit_url(url) {
        Some(seq![url])
    } else {
        None
    }
}

/// The index at which the pull-request number of `url` would start: behind
/// the `/pulls/` or `/pull/` that stands at the first `/pull`.
pub open spec fn pull_number_start(url: Seq<char>) -> Option<int> {
    match first_index(url, pull_marker()) {
        Some(at) => digits_start(url, at, "/pulls/"@, "/pull/"@),
        None => None,
    }
}

/// Where a pull-request URL is cut, looking only at what follows index
/// `after`: at the first `/commits/`; without one, at the first `/files`;
/// without either, at its end.
pub open spec fn pull_request_cut(url: Seq<char>, after: int) -> int {
    match first_from(url, "/commits/"@, after) {
        Some(at) => at,
        None => match first_from(url, "/files"@, after) {
            Some(at) => at,
            None => url.len() as int,
        },
    }
}

/// The canonical pull-request URL of `url`: present if at least one decimal
/// digit stands behind its first pull-request path, and then `url` up to the
/// cut that follows the number.
pub open spec fn pull_request_base(url: Seq<char>) -> Option<Seq<char>> {
    match pull_number_start(url) {
        Some(start) => {
            let digits = run_length(url, start, DigitClass::Decimal);
            if digits >= 1 {
                Some(url.take(pull_request_cut(url, start + digits)))
            } else {
                None
            }
        },
        None => None,
    }
}

/// The pull-request references that `url` contributes: its canonical
/// pull-request URL, if it has one.
pub open spec fn pull_request_references(url: Seq<char>) -> Option<Seq<Seq<char>>> {
    match pull_request_base(url) {
        Some(base) => Some(seq![base]),
        None => None,
    }
}

/// A URL with `/pull/` in it contributes no commit reference, whatever else
/// it holds.
pub proof fn lemma_pull_url_is_no_commit(url: Seq<char>)
    requires
        contains(url, pull_segment()),
    ensures
        !is_commit_url(url),
        commit_references(url) is None,
{
}

/// The canonical pull-request URL is the beginning of the URL it was made
/// from, and it reaches at least to the end of the pull-request number.
pub proof fn lemma_pull_request_base_is_prefix(url: Seq<char>)
    ensures
        pull_request_base(url) matches Some(base) ==> {
            &&& base.is_prefix_of(url)
            &&& pull_number_start(url) matches Some(start)
            &&& start + run_length(url, start, DigitClass::Decimal) <= base.len()
        },
{
    if let Some(start) = pull_number_start(url) {
        let at = first_index(url, pull_marker())->0;
        lemma_first_from_meaning(url, pull_marker(), 0);
        assert(0 <= start <= url.len());
        lemma_run_within(url, start, DigitClass::Decimal);
        let after = start + run_length(url, start, DigitClass::Decimal);
        lemma_first_from_meaning(url, "/commits/"@, after);
        lemma_first_from_meaning(url, "/files"@, after);
        let cut = pull_request_cut(url, after);
        assert(after <= cut <= url.len());
        assert(url.take(cut) =~= url.subrange(0, url.take(cut).len() as int));
    }
}

/// Finds where the digits start once a marker was found at `at`.
fn locate_digits(url: &Vec<char>, at: usize, plural: &str, singular: &str) -> (r: Option<usize>)
    ensures
        match r {
            Some(start) => digits_start(url@, at as int, plural@, singular@) == Some(start as int)
                && start <= url@.len(),
            None => digits_start(url@, at as int, plural@, singular@) == None::<int>,
        },
{
    let plural = chars_of(plural);
    let singular = chars_of(singular);
    if matches_at(url, &plural, at) {
        assert(at + plural.len() <= url.len());
        Some(at + plural.len())
    } else if matches_at(url, &singular, at) {
        assert(at + singular.len() <= url.len());
        Some(at + singular.len())
    } else {
        None
    }
}

/// Extracts the commit reference of a URL.
///
/// Returns the URL itself, as the only element, if it denotes a commit, and
/// nothing otherwise. A URL with `/pull/` in it never denotes a commit.
pub fn extract_git_commits(url: &str) -> (r: Option<Vec<String>>)
    ensures
        r.deep_view() == commit_references(url@),
        contains(url@, pull_segment()) ==> r is None,
{
    let text = chars_of(url);
    let pull = chars_of("/pull/");
    proof {
        lemma_first_from_meaning(text@, pull@, 0);
    }
    if find_from(&text, &pull, 0).is_some() {
        return None;
    }
    let marker = chars_of("/commit");
    let at = match find_from(&text, &marker, 0) {
        Some(at) => at,
        None => {
            return None;
        },
    };
    let start = match locate_digits(&text, at, "/commits/", "/commit/") {
        Some(start) => start,
        None => {
            return None;
        },
    };
    let digits = measure_run(&text, start, DigitClass::Hex);
    if MIN_HASH_LEN <= digits && digits <= MAX_HASH_LEN {
        let found = vec![url.to_owned()];
        assert(found.deep_view() =~= seq![url@]);
        Some(found)
    } else {
        None
    }
}

/// How long the run of `class` at `from` is, with the bound that keeps the
/// end of the run inside the text.
proof fn lemma_run_within(text: Seq<char>, from: int, class: DigitClass)
    requires
        0 <= from <= text.len(),
    ensures
        from + run_length(text, from, class) <= text.len(),
    decreases text.len() - from,
{
    if from < text.len() && class.admits(text[from]) {
        lemma_run_within(text, from + 1, class);
    }
}

/// Extracts the pull-request reference of a URL.
///
/// Returns the canonical pull-request URL, as the only element, if a number
/// stands behind the first pull-request path, and nothing otherwise. The
/// canonical URL ends before a `/commits/` or `/files` that follows the number.
pub fn extract_pull_requests(url: &str) -> (r: Option<Vec<String>>)
    ensures
        r.deep_view() == pull_request_references(url@),
{
    let text = chars_of(url);
    let marker = chars_of("/pull");
    let at = match find_from(&text, &marker, 0) {
        Some(at) => at,
        None => {
            return None;
        },
    };
    let start = match locate_digits(&text, at, "/pulls/", "/pull/") {
        Some(start) => start,
        None => {
            return None;
        },
    };
    let digits = measure_run(&text, start, DigitClass::Decimal);
    if digits == 0 {
        return None;
    }
    proof {
        lemma_run_within(text@, start as int, DigitClass::Decimal);
    }
    assert(start + digits <= text.len());
    let after = start + digits;
    let commits = chars_of("/commits/");
    let files = chars_of("/files");
    proof {
        lemma_first_from_meaning(text@, commits@, after as int);
        lemma_first_from_meaning(text@, files@, after as int);
    }
    let cut = match find_from(&text, &commits, after) {
        Some(at) => at,
        None => match find_from(&text, &files, after) {
            Some(at) => at,
            None => text.len(),
        },
    };
    let base = url.substring_char(0, cut).to_owned();
    let found = vec![base];
    assert(found.deep_view() =~= seq![url@.take(cut as int)]);
    Some(found)
}

} // verus!
