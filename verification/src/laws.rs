//! Library-wide laws, stated and proved over the same specification
//! functions that the executable contracts use.

use vstd::prelude::*;

use crate::category::spec_order;
use crate::classify::{first_match_at, spec_classify, spec_matches};
use crate::extract::{
    clean_loc_scan, frames_of, keep_line, lemma_frames_of_len, loc_scan, loc_tok_end,
    spec_extract_file_location, spec_user_frames,
};
use crate::lines::spec_lines;
use crate::record::ToonifiedError;
use crate::render::{spec_escape, spec_format_plain, spec_format_toon};
use crate::text::{blen, lemma_prefix_fit_bounds, prefix_fit, spec_truncate};

verus! {

/// Classification is a pure function of the input text: identical inputs
/// always yield the same category, however often they are classified.
pub proof fn lemma_classification_pure(a: Seq<char>, b: Seq<char>)
    requires
        a == b,
    ensures
        spec_classify(a) == spec_classify(b),
{
}

/// The rule order alone resolves ambiguity: when the rule at position `k`
/// matches and no earlier rule does, classification returns exactly that
/// rule's category.
pub proof fn lemma_first_rule_wins(t: Seq<char>, k: int)
    requires
        0 <= k < spec_order().len(),
        spec_matches(spec_order()[k], t),
        forall|j: int| 0 <= j < k ==> !spec_matches(#[trigger] spec_order()[j], t),
    ensures
        spec_classify(t) == Some(spec_order()[k]),
{
    lemma_first_match_skips(spec_order(), t, 0, k);
}

proof fn lemma_first_match_skips(cats: Seq<crate::category::ErrorType>, t: Seq<char>, i: int, k: int)
    requires
        0 <= i <= k < cats.len(),
        spec_matches(cats[k], t),
        forall|j: int| i <= j < k ==> !spec_matches(#[trigger] cats[j], t),
    ensures
        first_match_at(cats, t, i) == Some(cats[k]),
    decreases k - i,
{
    if i < k {
        lemma_first_match_skips(cats, t, i + 1, k);
    }
}

/// User-frame extraction keeps at most three lines, whatever the input.
pub proof fn lemma_at_most_three_frames(t: Seq<char>)
    ensures
        spec_user_frames(t).len() <= 3,
{
    lemma_frames_of_len(spec_lines(t), 0, 3);
}

/// In escaped issue text, every comma is directly preceded by a backslash.
pub proof fn lemma_escape_guards_commas(s: Seq<char>, j: int)
    requires
        0 <= j < spec_escape(s).len(),
        spec_escape(s)[j] == ',',
    ensures
        j > 0 && spec_escape(s)[j - 1] == '\\',
    decreases s.len(),
{
    if s.len() == 0 {
    } else if s[0] == ',' {
        let piece = seq!['\\', ','];
        let rest = spec_escape(s.drop_first());
        assert(spec_escape(s) == piece + rest);
        if j >= 2 {
            assert(spec_escape(s)[j] == rest[j - 2]);
            lemma_escape_guards_commas(s.drop_first(), j - 2);
            assert(spec_escape(s)[j - 1] == rest[j - 3]);
        }
    } else {
        let piece = seq![s[0]];
        let rest = spec_escape(s.drop_first());
        assert(spec_escape(s) == piece + rest);
        if j >= 1 {
            assert(spec_escape(s)[j] == rest[j - 1]);
            lemma_escape_guards_commas(s.drop_first(), j - 1);
            if j >= 2 {
                assert(spec_escape(s)[j - 1] == rest[j - 2]);
            }
        }
    }
}

/// Rendering reads nothing but the record: equal records render to
/// byte-identical strings, in either form, however often they are
/// rendered.
pub proof fn lemma_render_idempotent(r1: ToonifiedError, r2: ToonifiedError)
    requires
        r1 == r2,
    ensures
        spec_format_plain(r1) == spec_format_plain(r2),
        spec_format_toon(r1) == spec_format_toon(r2),
{
}

/// File-location extraction prefers application code: when some location
/// token sits on a line free of the vendored-code marker, the first such
/// token is the result.
pub proof fn lemma_location_prefers_application(t: Seq<char>, i: int)
    requires
        clean_loc_scan(t, 0) == Some(i),
    ensures
        spec_extract_file_location(t) == Some(t.subrange(i, loc_tok_end(t, i))),
{
}

/// When every location token sits on a vendored line, extraction falls
/// back to the first token in document order.
pub proof fn lemma_location_falls_back(t: Seq<char>, i: int)
    requires
        (clean_loc_scan(t, 0) is None),
        loc_scan(t, 0) == Some(i),
    ensures
        spec_extract_file_location(t) == Some(t.subrange(i, loc_tok_end(t, i))),
{
}

/// Every extracted frame is some kept line of the document, trimmed: a
/// line matching the stack-frame shape and free of noise markers.
pub proof fn lemma_frames_come_from_kept_lines(t: Seq<char>, m: int)
    requires
        0 <= m < spec_user_frames(t).len(),
    ensures
        exists|j: int|
            0 <= j < spec_lines(t).len() && keep_line(#[trigger] spec_lines(t)[j])
                && spec_user_frames(t)[m] == crate::text::spec_trim(spec_lines(t)[j]),
{
    lemma_frames_of_member(spec_lines(t), 0, 3, m);
}

proof fn lemma_frames_of_member(ls: Seq<Seq<char>>, k: int, left: int, m: int)
    requires
        0 <= m < frames_of(ls, k, left).len(),
    ensures
        exists|j: int|
            k <= j < ls.len() && keep_line(#[trigger] ls[j]) && frames_of(ls, k, left)[m]
                == crate::text::spec_trim(ls[j]),
    decreases ls.len() - k,
{
    if k < 0 || k >= ls.len() || left <= 0 {
    } else if keep_line(ls[k]) {
        if m == 0 {
            assert(k <= k < ls.len() && keep_line(ls[k]) && frames_of(ls, k, left)[0]
                == crate::text::spec_trim(ls[k]));
        } else {
            lemma_frames_of_member(ls, k + 1, left - 1, m - 1);
            let j = choose|j: int|
                k + 1 <= j < ls.len() && keep_line(#[trigger] ls[j]) && frames_of(
                    ls,
                    k + 1,
                    left - 1,
                )[m - 1] == crate::text::spec_trim(ls[j]);
            assert(k <= j < ls.len() && keep_line(ls[j]) && frames_of(ls, k, left)[m]
                == crate::text::spec_trim(ls[j]));
        }
    } else {
        lemma_frames_of_member(ls, k + 1, left, m);
        let j = choose|j: int|
            k + 1 <= j < ls.len() && keep_line(#[trigger] ls[j]) && frames_of(ls, k + 1, left)[m]
                == crate::text::spec_trim(ls[j]);
        assert(k <= j < ls.len() && keep_line(ls[j]) && frames_of(ls, k, left)[m]
            == crate::text::spec_trim(ls[j]));
    }
}

/// Truncation never splits a character: the result is the input itself, or
/// a whole-character prefix of it followed by the three-character ellipsis.
pub proof fn lemma_truncate_keeps_whole_characters(s: Seq<char>, max_len: int)
    ensures
        spec_truncate(s, max_len) == s || exists|k: int|
            0 <= k <= s.len() && spec_truncate(s, max_len) == s.take(k) + seq!['.', '.', '.'],
{
    if blen(s) <= max_len {
    } else {
        let budget = if max_len >= 3 {
            max_len - 3
        } else {
            0
        };
        lemma_prefix_fit_bounds(s, budget);
        let k = prefix_fit(s, budget);
        assert(0 <= k <= s.len() && spec_truncate(s, max_len) == s.take(k) + seq!['.', '.', '.']);
    }
}

} // verus!
