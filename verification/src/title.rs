//! Titles: the normalized form by which catalog and ledger are matched, and
//! the file name under which a clip is stored.

use vstd::prelude::*;
use regex::Regex;
use crate::error::SyncError;
use crate::text::chars_of;

verus! {

/// Whether `marker` stands in `title` at position `at`.
pub open spec fn stands_at(title: Seq<char>, marker: Seq<char>, at: int) -> bool {
    &&& 0 <= at
    &&& at + marker.len() <= title.len()
    &&& title.subrange(at, at + marker.len()) == marker
}

/// Whether a non-empty `marker` stands anywhere in `title`.
pub open spec fn marked(title: Seq<char>, marker: Seq<char>) -> bool {
    marker.len() > 0 && exists|at: int| stands_at(title, marker, at)
}

/// `title` with every occurrence of `marker` taken out, reading from the
/// left; an occurrence that begins inside an earlier one is not counted.
/// An empty marker takes nothing out.
pub open spec fn without(title: Seq<char>, marker: Seq<char>) -> Seq<char>
    decreases title.len(),
{
    if marker.len() == 0 || title.len() < marker.len() {
        title
    } else if title.subrange(0, marker.len() as int) == marker {
        without(title.skip(marker.len() as int), marker)
    } else {
        seq![title[0]] + without(title.skip(1), marker)
    }
}

/// Taking a marker out never makes a title longer.
pub proof fn lemma_without_len(title: Seq<char>, marker: Seq<char>)
    ensures
        without(title, marker).len() <= title.len(),
    decreases title.len(),
{
    if marker.len() == 0 || title.len() < marker.len() {
    } else if title.subrange(0, marker.len() as int) == marker {
        lemma_without_len(title.skip(marker.len() as int), marker);
    } else {
        lemma_without_len(title.skip(1), marker);
    }
}

/// A title in which the marker stands nowhere is its own normalized form.
pub proof fn lemma_unmarked_unchanged(title: Seq<char>, marker: Seq<char>)
    requires
        !marked(title, marker),
    ensures
        without(title, marker) == title,
    decreases title.len(),
{
    if marker.len() == 0 || title.len() < marker.len() {
    } else {
        assert(!stands_at(title, marker, 0));
        let rest = title.skip(1);
        assert forall|at: int| !stands_at(rest, marker, at) by {
            if stands_at(rest, marker, at) {
                assert(rest.subrange(at, at + marker.len()) =~= title.subrange(
                    at + 1,
                    at + 1 + marker.len(),
                ));
                assert(stands_at(title, marker, at + 1));
            }
        }
        lemma_unmarked_unchanged(rest, marker);
    }
}

/// A title in which the marker stands somewhere gets shorter, so it is not
/// its own normalized form.
pub proof fn lemma_marked_shrinks(title: Seq<char>, marker: Seq<char>)
    requires
        marked(title, marker),
    ensures
        without(title, marker).len() < title.len(),
    decreases title.len(),
{
    let at = choose|at: int| stands_at(title, marker, at);
    if title.subrange(0, marker.len() as int) == marker {
        lemma_without_len(title.skip(marker.len() as int), marker);
    } else {
        let rest = title.skip(1);
        assert(rest.subrange(at - 1, at - 1 + marker.len()) =~= title.subrange(
            at,
            at + marker.len(),
        ));
        assert(stands_at(rest, marker, at - 1));
        lemma_marked_shrinks(rest, marker);
    }
}

/// Normalizing twice gives what normalizing once gives, for every title whose
/// normalized form the marker no longer stands in. Taking occurrences out can
/// bring the two halves of a new one together: such titles are left out
/// here, and `lemma_second_pass_differs` speaks of them.
pub proof fn lemma_normalize_idempotent(title: Seq<char>, marker: Seq<char>)
    requires
        !marked(without(title, marker), marker),
    ensures
        without(without(title, marker), marker) == without(title, marker),
{
    lemma_unmarked_unchanged(without(title, marker), marker);
}

/// Where the marker still stands in the normalized form of a title, a second
/// pass takes it out again and gives another, shorter text.
pub proof fn lemma_second_pass_differs(title: Seq<char>, marker: Seq<char>)
    requires
        marked(without(title, marker), marker),
    ensures
        without(without(title, marker), marker) != without(title, marker),
{
    lemma_marked_shrinks(without(title, marker), marker);
}

fn matches_at(text: &Vec<char>, marker: &Vec<char>, at: usize) -> (found: bool)
    requires
        at + marker.len() <= text.len(),
    ensures
        found == stands_at(text@, marker@, at as int),
{
    let mut k: usize = 0;
    while k < marker.len()
        invariant
            k <= marker.len(),
            at + marker.len() <= text.len(),
            forall|j: int| 0 <= j < k ==> text@[at + j] == marker@[j],
        decreases marker.len() - k,
    {
        if text[at + k] != marker[k] {
            assert(text@.subrange(at as int, at + marker.len())[k as int] != marker@[k as int]);
            return false;
        }
        k += 1;
    }
    assert(text@.subrange(at as int, at + marker.len()) =~= marker@);
    true
}

/// The normalized form of a catalog title: the title without the channel's
/// marker. Titles are compared in this form only.
pub fn normalize(raw_title: &str, channel_suffix: &str) -> (title: String)
    ensures
        title@ == without(raw_title@, channel_suffix@),
{
    let text = chars_of(raw_title);
    let marker = chars_of(channel_suffix);
    let n: usize = text.len();
    let m: usize = marker.len();
    if m == 0 || n < m {
        return raw_title.to_owned();
    }
    let mut title = String::new();
    let mut kept: usize = 0;
    let mut i: usize = 0;
    proof {
        assert(text@.skip(0) =~= text@);
    }
    while i <= n - m
        invariant
            0 < m <= n,
            kept <= i <= n,
            n == text.len(),
            m == marker.len(),
            text@ == raw_title@,
            without(text@, marker@) == title@ + text@.subrange(kept as int, i as int) + without(
                text@.skip(i as int),
                marker@,
            ),
        decreases n - i,
    {
        let ghost tail = text@.skip(i as int);
        if matches_at(&text, &marker, i) {
            title.append(raw_title.substring_char(kept, i));
            proof {
                assert(tail.subrange(0, m as int) =~= text@.subrange(i as int, i + m));
                assert(tail.skip(m as int) =~= text@.skip(i + m));
            }
            i = i + m;
            kept = i;
        } else {
            proof {
                assert(tail.subrange(0, m as int) =~= text@.subrange(i as int, i + m));
                assert(tail.skip(1) =~= text@.skip(i + 1));
            }
            i = i + 1;
        }
    }
    title.append(raw_title.substring_char(kept, n));
    title
}

/// The error with which the `regex` crate rejects a pattern.
#[verifier::external_type_specification]
#[verifier::external_body]
pub struct ExPatternError(regex::Error);

/// `text` with the first match of the regular expression `pattern` replaced
/// by `replacement`, as the `regex` crate does it; `None` for a pattern that
/// the crate does not compile.
pub uninterp spec fn first_match_replaced(
    pattern: Seq<char>,
    text: Seq<char>,
    replacement: Seq<char>,
) -> Option<Seq<char>>;

/// Compiles `pattern` with `regex::Regex::new` and calls `Regex::replace` on
/// `text`. Believed, not proved: the pattern compiles exactly where
/// `first_match_replaced` is `Some`, and the text returned is the one it
/// names.
#[verifier::external_body]
fn replace_first(pattern: &str, text: &str, replacement: &str) -> (replaced: Result<
    String,
    regex::Error,
>)
    ensures
        replaced is Ok <==> first_match_replaced(pattern@, text@, replacement@) is Some,
        replaced matches Ok(s) ==> first_match_replaced(pattern@, text@, replacement@) == Some(
            s@,
        ),
{
    match Regex::new(pattern) {
        Ok(compiled) => Ok(compiled.replace(text, replacement).into_owned()),
        Err(e) => Err(e),
    }
}

/// The name under which a clip is stored: the ledger title without its date
/// prefix, that is, with the first match of `date_prefix` cut out. A title
/// that the pattern does not match is, by the `regex` crate's word, returned
/// as it is.
pub fn extract_title(input: &str, date_prefix: &str) -> (name: Result<String, SyncError>)
    ensures
        match first_match_replaced(date_prefix@, input@, Seq::empty()) {
            Some(bare) => name matches Ok(s) && s@ == bare,
            None => name == Err::<String, SyncError>(SyncError::InvalidPattern),
        },
{
    proof {
        reveal_strlit("");
        assert(""@ =~= Seq::<char>::empty());
    }
    match replace_first(date_prefix, input, "") {
        Ok(bare) => Ok(bare),
        Err(_) => Err(SyncError::InvalidPattern),
    }
}

} // verus!
