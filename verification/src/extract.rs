//! Extraction of the salient fields from an already-classified text: the
//! primary file location, a one-line issue summary, and up to three
//! application-authored stack frames.

use vstd::prelude::*;
use vstd::string::StrSliceExecFns;

use crate::category::ErrorType;
use crate::classify::status_at;
use crate::lines::{ex_nl_end, ex_nl_start, line_bounds, nl_end, nl_start, spec_lines, sub_vec};
use crate::text::{
    blen, chars_of, contains, contains_lit, digits_end, ex_digits_end, ex_is_digit,
    ex_is_file_char, find_from, find_lit, is_digit, is_file_char, is_lower, is_upper,
    lemma_blen_subrange, occ, occ_at, spec_trim, spec_truncate, trim_range, truncate,
};

verus! {

/// A view of an optional owned string.
pub open spec fn opt_view(o: Option<String>) -> Option<Seq<char>> {
    match o {
        Some(s) => Some(s@),
        None => None,
    }
}

// ---------------------------------------------------------------------------
// Character runs used by the extraction grammars
// ---------------------------------------------------------------------------

/// End of the run of lowercase letters starting at `i`.
pub open spec fn lower_end(s: Seq<char>, i: int) -> int
    decreases s.len() - i,
{
    if 0 <= i < s.len() && is_lower(s[i]) {
        lower_end(s, i + 1)
    } else {
        i
    }
}

/// End of the run of uppercase letters starting at `i`.
pub open spec fn upper_end(s: Seq<char>, i: int) -> int
    decreases s.len() - i,
{
    if 0 <= i < s.len() && is_upper(s[i]) {
        upper_end(s, i + 1)
    } else {
        i
    }
}

/// End of the run of uppercase letters and underscores starting at `i`.
pub open spec fn code_end(s: Seq<char>, i: int) -> int
    decreases s.len() - i,
{
    if 0 <= i < s.len() && (is_upper(s[i]) || s[i] == '_') {
        code_end(s, i + 1)
    } else {
        i
    }
}

/// End of the run of file-name characters starting at `i`.
pub open spec fn file_end(s: Seq<char>, i: int) -> int
    decreases s.len() - i,
{
    if 0 <= i < s.len() && is_file_char(s[i]) {
        file_end(s, i + 1)
    } else {
        i
    }
}

fn ex_lower_end(t: &Vec<char>, i: usize) -> (r: usize)
    requires
        i <= t.len(),
    ensures
        r == lower_end(t@, i as int),
        i <= r <= t.len(),
{
    let mut j: usize = i;
    while j < t.len() && crate::text::ex_is_lower(t[j])
        invariant
            i <= j <= t.len(),
            lower_end(t@, i as int) == lower_end(t@, j as int),
        decreases t.len() - j,
    {
        j += 1;
    }
    j
}

fn ex_upper_end(t: &Vec<char>, i: usize) -> (r: usize)
    requires
        i <= t.len(),
    ensures
        r == upper_end(t@, i as int),
        i <= r <= t.len(),
{
    let mut j: usize = i;
    while j < t.len() && crate::text::ex_is_upper(t[j])
        invariant
            i <= j <= t.len(),
            upper_end(t@, i as int) == upper_end(t@, j as int),
        decreases t.len() - j,
    {
        j += 1;
    }
    j
}

fn ex_code_end(t: &Vec<char>, i: usize) -> (r: usize)
    requires
        i <= t.len(),
    ensures
        r == code_end(t@, i as int),
        i <= r <= t.len(),
{
    let mut j: usize = i;
    while j < t.len() && (crate::text::ex_is_upper(t[j]) || t[j] == '_')
        invariant
            i <= j <= t.len(),
            code_end(t@, i as int) == code_end(t@, j as int),
        decreases t.len() - j,
    {
        j += 1;
    }
    j
}

fn ex_file_end(t: &Vec<char>, i: usize) -> (r: usize)
    requires
        i <= t.len(),
    ensures
        r == file_end(t@, i as int),
        i <= r <= t.len(),
{
    let mut j: usize = i;
    while j < t.len() && ex_is_file_char(t[j])
        invariant
            i <= j <= t.len(),
            file_end(t@, i as int) == file_end(t@, j as int),
        decreases t.len() - j,
    {
        j += 1;
    }
    j
}

// ---------------------------------------------------------------------------
// Keyword line search
// ---------------------------------------------------------------------------

/// The line contains one of the needles (case-insensitive when `ci`).
pub open spec fn line_has_any(l: Seq<char>, nd: Seq<Seq<char>>, ci: bool) -> bool {
    exists|j: int| 0 <= j < nd.len() && contains_lit(l, nd[j], ci)
}

/// Index of the first line at or after `k` that contains one of the
/// needles.
pub open spec fn hit_line_idx(ls: Seq<Seq<char>>, nd: Seq<Seq<char>>, k: int) -> Option<int>
    decreases ls.len() - k,
{
    if k < 0 || k >= ls.len() {
        None
    } else if line_has_any(ls[k], nd, true) {
        Some(k)
    } else {
        hit_line_idx(ls, nd, k + 1)
    }
}

/// The first line that contains one of the needles, trimmed; nothing when
/// no line does.
pub open spec fn spec_find_line_containing(t: Seq<char>, nd: Seq<Seq<char>>) -> Option<Seq<char>> {
    match hit_line_idx(spec_lines(t), nd, 0) {
        Some(k) => Some(spec_trim(spec_lines(t)[k])),
        None => None,
    }
}

fn any_contains(l: &Vec<char>, nd: &Vec<Vec<char>>, ci: bool) -> (r: bool)
    ensures
        r == line_has_any(l@, nd.deep_view(), ci),
{
    let mut j: usize = 0;
    while j < nd.len()
        invariant
            j <= nd.len(),
            forall|j2: int| 0 <= j2 < j ==> !contains_lit(l@, #[trigger] nd.deep_view()[j2], ci),
        decreases nd.len() - j,
    {
        proof {
            assert(nd.deep_view()[j as int] == nd@[j as int]@);
        }
        if contains(l, &nd[j], ci) {
            return true;
        }
        j += 1;
    }
    false
}

/// Scan the lines in order; return the first line, trimmed, that contains
/// one of the needles.
pub fn find_line_containing(input: &str, nd: &Vec<Vec<char>>) -> (r: Option<String>)
    ensures
        opt_view(r) == spec_find_line_containing(input@, nd.deep_view()),
        r matches Some(s) ==> blen(s@) <= blen(input@),
{
    let t = chars_of(input);
    let bounds = line_bounds(&t);
    let ghost ls = spec_lines(input@);
    let mut k: usize = 0;
    while k < bounds.len()
        invariant
            t@ == input@,
            ls == spec_lines(input@),
            bounds@.len() == ls.len(),
            forall|m: int|
                0 <= m < bounds@.len() ==> (#[trigger] bounds@[m].0 as int) <= (bounds@[m].1 as int)
                    <= t@.len() && t@.subrange(bounds@[m].0 as int, bounds@[m].1 as int) == ls[m],
            k <= bounds.len(),
            hit_line_idx(ls, nd.deep_view(), 0) == hit_line_idx(ls, nd.deep_view(), k as int),
        decreases bounds.len() - k,
    {
        let a = bounds[k].0;
        let b = bounds[k].1;
        let lv = sub_vec(&t, a, b);
        if any_contains(&lv, nd, true) {
            let tr = trim_range(&t, a, b);
            proof {
                assert(hit_line_idx(ls, nd.deep_view(), k as int) == Some(k as int));
                lemma_blen_subrange(input@, tr.0 as int, tr.1 as int);
            }
            return Some(input.substring_char(tr.0, tr.1).to_owned());
        }
        k += 1;
    }
    None
}

// ---------------------------------------------------------------------------
// Prefix line search
// ---------------------------------------------------------------------------

/// The line starts with one of the prefixes.
pub open spec fn line_starts_any(l: Seq<char>, pats: Seq<Seq<char>>) -> bool {
    exists|j: int| 0 <= j < pats.len() && occ(l, 0, pats[j], false)
}

/// Index of the first line at or after `k` that starts with one of the
/// prefixes.
pub open spec fn sw_line_idx(ls: Seq<Seq<char>>, pats: Seq<Seq<char>>, k: int) -> Option<int>
    decreases ls.len() - k,
{
    if k < 0 || k >= ls.len() {
        None
    } else if line_starts_any(ls[k], pats) {
        Some(k)
    } else {
        sw_line_idx(ls, pats, k + 1)
    }
}

/// Leftmost position of the first prefix, in prefix order, that occurs
/// anywhere in the line.
pub open spec fn first_pat_pos(l: Seq<char>, pats: Seq<Seq<char>>, j: int) -> Option<int>
    decreases pats.len() - j,
{
    if j < 0 || j >= pats.len() {
        None
    } else if find_lit(l, 0, pats[j], false) is Some {
        find_lit(l, 0, pats[j], false)
    } else {
        first_pat_pos(l, pats, j + 1)
    }
}

/// First line, with the position inside it, where some prefix occurs
/// anywhere.
pub open spec fn within_line_idx(ls: Seq<Seq<char>>, pats: Seq<Seq<char>>, k: int) -> Option<
    (int, int),
>
    decreases ls.len() - k,
{
    if k < 0 || k >= ls.len() {
        None
    } else {
        match first_pat_pos(ls[k], pats, 0) {
            Some(i) => Some((k, i)),
            None => within_line_idx(ls, pats, k + 1),
        }
    }
}

/// The first line that starts with one of the prefixes, whole; failing
/// that, the first line that contains one anywhere, from the prefix
/// onward; nothing when neither exists.
pub open spec fn spec_find_line_starting_with(t: Seq<char>, pats: Seq<Seq<char>>) -> Option<
    Seq<char>,
> {
    let ls = spec_lines(t);
    match sw_line_idx(ls, pats, 0) {
        Some(k) => Some(ls[k]),
        None => match within_line_idx(ls, pats, 0) {
            Some(ki) => Some(ls[ki.0].subrange(ki.1, ls[ki.0].len() as int)),
            None => None,
        },
    }
}

fn any_starts(l: &Vec<char>, pats: &Vec<Vec<char>>) -> (r: bool)
    ensures
        r == line_starts_any(l@, pats.deep_view()),
{
    let mut j: usize = 0;
    while j < pats.len()
        invariant
            j <= pats.len(),
            forall|j2: int| 0 <= j2 < j ==> !occ(l@, 0, #[trigger] pats.deep_view()[j2], false),
        decreases pats.len() - j,
    {
        proof {
            assert(pats.deep_view()[j as int] == pats@[j as int]@);
        }
        if occ_at(l, 0, &pats[j], false) {
            return true;
        }
        j += 1;
    }
    false
}

fn first_pat_in(l: &Vec<char>, pats: &Vec<Vec<char>>) -> (r: Option<usize>)
    ensures
        match r {
            Some(i) => first_pat_pos(l@, pats.deep_view(), 0) == Some(i as int) && i <= l.len(),
            None => first_pat_pos(l@, pats.deep_view(), 0) is None,
        },
{
    let mut j: usize = 0;
    while j < pats.len()
        invariant
            j <= pats.len(),
            first_pat_pos(l@, pats.deep_view(), 0) == first_pat_pos(
                l@,
                pats.deep_view(),
                j as int,
            ),
        decreases pats.len() - j,
    {
        proof {
            assert(pats.deep_view()[j as int] == pats@[j as int]@);
        }
        match find_from(l, 0, &pats[j], false) {
            Some(i) => {
                proof {
                    crate::text::lemma_find_lit_occ(l@, 0, pats@[j as int]@, false);
                }
                return Some(i);
            },
            None => {},
        }
        j += 1;
    }
    None
}

/// Scan the lines in order for one that starts with a prefix; fall back to
/// the first line containing a prefix anywhere, cut from the prefix on.
pub fn find_line_starting_with(input: &str, pats: &Vec<Vec<char>>) -> (r: Option<String>)
    ensures
        opt_view(r) == spec_find_line_starting_with(input@, pats.deep_view()),
        r matches Some(s) ==> blen(s@) <= blen(input@),
{
    let t = chars_of(input);
    let bounds = line_bounds(&t);
    let ghost ls = spec_lines(input@);
    let mut k: usize = 0;
    while k < bounds.len()
        invariant
            t@ == input@,
            ls == spec_lines(input@),
            bounds@.len() == ls.len(),
            forall|m: int|
                0 <= m < bounds@.len() ==> (#[trigger] bounds@[m].0 as int) <= (bounds@[m].1 as int)
                    <= t@.len() && t@.subrange(bounds@[m].0 as int, bounds@[m].1 as int) == ls[m],
            k <= bounds.len(),
            sw_line_idx(ls, pats.deep_view(), 0) == sw_line_idx(ls, pats.deep_view(), k as int),
        decreases bounds.len() - k,
    {
        let a = bounds[k].0;
        let b = bounds[k].1;
        let lv = sub_vec(&t, a, b);
        if any_starts(&lv, pats) {
            proof {
                assert(sw_line_idx(ls, pats.deep_view(), k as int) == Some(k as int));
                lemma_blen_subrange(input@, a as int, b as int);
            }
            return Some(input.substring_char(a, b).to_owned());
        }
        k += 1;
    }
    let mut k: usize = 0;
    while k < bounds.len()
        invariant
            t@ == input@,
            ls == spec_lines(input@),
            bounds@.len() == ls.len(),
            forall|m: int|
                0 <= m < bounds@.len() ==> (#[trigger] bounds@[m].0 as int) <= (bounds@[m].1 as int)
                    <= t@.len() && t@.subrange(bounds@[m].0 as int, bounds@[m].1 as int) == ls[m],
            k <= bounds.len(),
            sw_line_idx(ls, pats.deep_view(), 0) is None,
            within_line_idx(ls, pats.deep_view(), 0) == within_line_idx(
                ls,
                pats.deep_view(),
                k as int,
            ),
        decreases bounds.len() - k,
    {
        let a = bounds[k].0;
        let b = bounds[k].1;
        let lv = sub_vec(&t, a, b);
        match first_pat_in(&lv, pats) {
            Some(i) => {
                proof {
                    assert(within_line_idx(ls, pats.deep_view(), k as int) == Some(
                        (k as int, i as int),
                    ));
                    assert(ls[k as int].subrange(i as int, ls[k as int].len() as int)
                        =~= input@.subrange(a + i, b as int));
                    lemma_blen_subrange(input@, a + i, b as int);
                }
                return Some(input.substring_char(a + i, b).to_owned());
            },
            None => {},
        }
        k += 1;
    }
    None
}


// ---------------------------------------------------------------------------
// File-location extraction
// ---------------------------------------------------------------------------

/// The run ending at `r` finishes with a dot, the extension `x`, and the
/// colon at `r`, with at least one file character before the dot.
pub open spec fn dot_ext(t: Seq<char>, i: int, r: int, x: Seq<char>) -> bool {
    &&& r - 1 - x.len() >= i + 1
    &&& t[r - 1 - x.len()] == '.'
    &&& occ(t, r - x.len(), x, false)
}

/// One of the recognized front-end source extensions closes the run.
pub open spec fn ext_ok(t: Seq<char>, i: int, r: int) -> bool {
    ||| dot_ext(t, i, r, "mdx"@)
    ||| dot_ext(t, i, r, "tsx"@)
    ||| dot_ext(t, i, r, "jsx"@)
    ||| dot_ext(t, i, r, "ts"@)
    ||| dot_ext(t, i, r, "js"@)
    ||| dot_ext(t, i, r, "vue"@)
    ||| dot_ext(t, i, r, "svelte"@)
}

/// A file-location token starts at `i`: a maximal run of file-name
/// characters ending in a recognized extension, a colon, and a line number.
pub open spec fn loc_at(t: Seq<char>, i: int) -> bool {
    let r = file_end(t, i);
    &&& 0 <= i < t.len()
    &&& is_file_char(t[i])
    &&& (i == 0 || !is_file_char(t[i - 1]))
    &&& r < t.len() && t[r] == ':'
    &&& r + 1 < t.len() && is_digit(t[r + 1])
    &&& ext_ok(t, i, r)
}

/// End of the token: the file name, the colon, and the whole run of digits.
pub open spec fn loc_tok_end(t: Seq<char>, i: int) -> int {
    digits_end(t, file_end(t, i) + 1)
}

/// The whole line around the token, used to recognize vendored code.
pub open spec fn loc_line(t: Seq<char>, i: int) -> Seq<char> {
    t.subrange(nl_start(t, i), nl_end(t, loc_tok_end(t, i)))
}

/// The token's line does not name the dependency install directory.
pub open spec fn loc_clean(t: Seq<char>, i: int) -> bool {
    !contains_lit(loc_line(t, i), "node_modules"@, false)
}

/// First file-location token at or after `from`.
pub open spec fn loc_scan(t: Seq<char>, from: int) -> Option<int>
    decreases t.len() - from,
{
    if from < 0 || from >= t.len() {
        None
    } else if loc_at(t, from) {
        Some(from)
    } else {
        loc_scan(t, from + 1)
    }
}

/// First file-location token on a line free of vendored code.
pub open spec fn clean_loc_scan(t: Seq<char>, from: int) -> Option<int>
    decreases t.len() - from,
{
    if from < 0 || from >= t.len() {
        None
    } else if loc_at(t, from) && loc_clean(t, from) {
        Some(from)
    } else {
        clean_loc_scan(t, from + 1)
    }
}

/// The extracted file location: the first token whose line is free of
/// vendored code, else the first token at all, else nothing.
pub open spec fn spec_extract_file_location(t: Seq<char>) -> Option<Seq<char>> {
    match clean_loc_scan(t, 0) {
        Some(i) => Some(t.subrange(i, loc_tok_end(t, i))),
        None => match loc_scan(t, 0) {
            Some(i) => Some(t.subrange(i, loc_tok_end(t, i))),
            None => None,
        },
    }
}

fn ex_dot_ext(t: &Vec<char>, i: usize, r: usize, x: &Vec<char>) -> (res: bool)
    requires
        i <= r <= t.len(),
    ensures
        res == dot_ext(t@, i as int, r as int, x@),
{
    if r < 2 || x.len() > r - 2 {
        return false;
    }
    if r - x.len() - 1 <= i {
        return false;
    }
    t[r - 1 - x.len()] == '.' && occ_at(t, r - x.len(), x, false)
}

fn ex_ext_ok(t: &Vec<char>, i: usize, r: usize) -> (res: bool)
    requires
        i <= r <= t.len(),
    ensures
        res == ext_ok(t@, i as int, r as int),
{
    ex_dot_ext(t, i, r, &chars_of("mdx")) || ex_dot_ext(t, i, r, &chars_of("tsx")) || ex_dot_ext(
        t,
        i,
        r,
        &chars_of("jsx"),
    ) || ex_dot_ext(t, i, r, &chars_of("ts")) || ex_dot_ext(t, i, r, &chars_of("js")) || ex_dot_ext(
        t,
        i,
        r,
        &chars_of("vue"),
    ) || ex_dot_ext(t, i, r, &chars_of("svelte"))
}

fn ex_loc_at(t: &Vec<char>, i: usize) -> (res: bool)
    requires
        i < t.len(),
    ensures
        res == loc_at(t@, i as int),
{
    if !ex_is_file_char(t[i]) {
        return false;
    }
    if i > 0 && ex_is_file_char(t[i - 1]) {
        return false;
    }
    let r = ex_file_end(t, i);
    if r >= t.len() || t[r] != ':' {
        return false;
    }
    if r + 1 >= t.len() || !ex_is_digit(t[r + 1]) {
        return false;
    }
    ex_ext_ok(t, i, r)
}

/// Whether the line holding the token at `i` is free of vendored code.
fn ex_loc_clean(t: &Vec<char>, i: usize) -> (res: bool)
    requires
        i < t.len(),
        loc_at(t@, i as int),
    ensures
        res == loc_clean(t@, i as int),
{
    let r = ex_file_end(t, i);
    let e = ex_digits_end(t, r + 1);
    let lo = ex_nl_start(t, i);
    let hi = ex_nl_end(t, e);
    proof {
        crate::lines::lemma_nl_end(t@, e as int);
        assert(lo <= i < t.len());
    }
    let line = sub_vec(t, lo, hi);
    !contains(&line, &chars_of("node_modules"), false)
}

/// The location token at `i`, as an owned string.
fn loc_string(input: &str, t: &Vec<char>, i: usize) -> (res: String)
    requires
        t@ == input@,
        i < t.len(),
        loc_at(t@, i as int),
    ensures
        res@ == t@.subrange(i as int, loc_tok_end(t@, i as int)),
        blen(res@) <= blen(input@),
{
    let r = ex_file_end(t, i);
    let e = ex_digits_end(t, r + 1);
    proof {
        lemma_blen_subrange(input@, i as int, e as int);
    }
    input.substring_char(i, e).to_owned()
}

/// Find all file-location tokens and prefer the first one outside vendored
/// code, falling back to the very first token; nothing when none occur.
pub fn extract_file_location(input: &str) -> (r: Option<String>)
    ensures
        opt_view(r) == spec_extract_file_location(input@),
        (r matches Some(s) ==> blen(s@) <= blen(input@)),
{
    let t = chars_of(input);
    let mut i: usize = 0;
    loop
        invariant
            t@ == input@,
            clean_loc_scan(t@, 0) == clean_loc_scan(t@, i as int),
        ensures
            (clean_loc_scan(t@, 0) is None),
        decreases t.len() + 1 - i,
    {
        if i >= t.len() {
            proof {
                assert(clean_loc_scan(t@, i as int) is None);
            }
            break;
        }
        if ex_loc_at(&t, i) {
            if ex_loc_clean(&t, i) {
                return Some(loc_string(input, &t, i));
            }
        }
        i += 1;
    }
    let mut i: usize = 0;
    loop
        invariant
            t@ == input@,
            (clean_loc_scan(t@, 0) is None),
            loc_scan(t@, 0) == loc_scan(t@, i as int),
        decreases t.len() + 1 - i,
    {
        if i >= t.len() {
            proof {
                assert(loc_scan(t@, i as int) is None);
            }
            return None;
        }
        if ex_loc_at(&t, i) {
            return Some(loc_string(input, &t, i));
        }
        i += 1;
    }
}


// ---------------------------------------------------------------------------
// Issue-line extraction
// ---------------------------------------------------------------------------

/// End of a markup-nesting phrase starting at `i`: a lowercase tag, the
/// connective, an optional qualifier, and a second lowercase tag.
pub open spec fn dom_end_at(t: Seq<char>, i: int) -> Option<int> {
    let a = lower_end(t, i + 1);
    if 0 <= i < t.len() && t[i] == '<' && a > i + 1 && occ(t, a, "> cannot "@, false) {
        let p = a + "> cannot "@.len();
        let q = if occ(t, p, "appear as a "@, false) {
            p + "appear as a "@.len()
        } else if occ(t, p, "be a "@, false) {
            p + "be a "@.len()
        } else {
            p
        };
        if occ(t, q, "descendant of <"@, false) {
            let b = lower_end(t, q + "descendant of <"@.len());
            if b > q + "descendant of <"@.len() && b < t.len() && t[b] == '>' {
                Some(b + 1)
            } else {
                None
            }
        } else {
            None
        }
    } else {
        None
    }
}

/// Leftmost markup-nesting phrase.
pub open spec fn dom_scan(t: Seq<char>, from: int) -> Option<(int, int)>
    decreases t.len() - from,
{
    if from < 0 || from >= t.len() {
        None
    } else {
        match dom_end_at(t, from) {
            Some(e) => Some((from, e)),
            None => dom_scan(t, from + 1),
        }
    }
}

/// An OS error code starts at `i`: `E`, uppercase letters, and a colon.
pub open spec fn sys_at(t: Seq<char>, i: int) -> bool {
    let u = upper_end(t, i + 1);
    &&& 0 <= i < t.len()
    &&& t[i] == 'E'
    &&& u > i + 1
    &&& u < t.len() && t[u] == ':'
}

pub open spec fn sys_scan(t: Seq<char>, from: int) -> Option<int>
    decreases t.len() - from,
{
    if from < 0 || from >= t.len() {
        None
    } else if sys_at(t, from) {
        Some(from)
    } else {
        sys_scan(t, from + 1)
    }
}

/// A build-tool code starts at `i`: the `SB_` prefix and at least one more
/// uppercase letter or underscore.
pub open spec fn sb_at(t: Seq<char>, i: int) -> bool {
    occ(t, i, "SB_"@, false) && code_end(t, i + "SB_"@.len()) > i + "SB_"@.len()
}

pub open spec fn sb_scan(t: Seq<char>, from: int) -> Option<int>
    decreases t.len() - from,
{
    if from < 0 || from >= t.len() {
        None
    } else if sb_at(t, from) {
        Some(from)
    } else {
        sb_scan(t, from + 1)
    }
}

/// Position of the last occurrence of `error` between `p` and `j`.
pub open spec fn last_err(t: Seq<char>, p: int, j: int) -> Option<int>
    decreases j - p + 1,
{
    if j < p {
        None
    } else if occ(t, j, "error"@, false) {
        Some(j)
    } else {
        last_err(t, p, j - 1)
    }
}

/// End of the framework phrase: the last `error` on the same line, if any.
pub open spec fn njs_err_end(t: Seq<char>, p: int) -> Option<int> {
    match last_err(t, p, nl_end(t, p) - "error"@.len()) {
        Some(j) => Some(j + "error"@.len()),
        None => None,
    }
}

/// A framework code or data-fetching phrase starts at `i`.
pub open spec fn njs_end_at(t: Seq<char>, i: int) -> Option<int> {
    if occ(t, i, "NEXT_"@, false) && code_end(t, i + "NEXT_"@.len()) > i + "NEXT_"@.len() {
        Some(code_end(t, i + "NEXT_"@.len()))
    } else if occ(t, i, "getServerSideProps"@, false) {
        njs_err_end(t, i + "getServerSideProps"@.len())
    } else if occ(t, i, "getStaticProps"@, false) {
        njs_err_end(t, i + "getStaticProps"@.len())
    } else {
        None
    }
}

pub open spec fn njs_scan(t: Seq<char>, from: int) -> Option<(int, int)>
    decreases t.len() - from,
{
    if from < 0 || from >= t.len() {
        None
    } else {
        match njs_end_at(t, from) {
            Some(e) => Some((from, e)),
            None => njs_scan(t, from + 1),
        }
    }
}

/// Leftmost 4xx/5xx status code.
pub open spec fn status_scan(t: Seq<char>, from: int) -> Option<int>
    decreases t.len() - from,
{
    if from < 0 || from >= t.len() {
        None
    } else if status_at(t, from) {
        Some(from)
    } else {
        status_scan(t, from + 1)
    }
}

fn ex_dom_end_at(t: &Vec<char>, i: usize) -> (res: Option<usize>)
    requires
        i < t.len(),
    ensures
        match res {
            Some(e) => dom_end_at(t@, i as int) == Some(e as int) && i < e <= t.len(),
            None => dom_end_at(t@, i as int) is None,
        },
{
    if t[i] != '<' {
        return None;
    }
    let a = ex_lower_end(t, i + 1);
    if a == i + 1 {
        return None;
    }
    let cannot = chars_of("> cannot ");
    if !occ_at(t, a, &cannot, false) {
        return None;
    }
    let p: usize = a + cannot.len();
    let appear = chars_of("appear as a ");
    let bea = chars_of("be a ");
    let q: usize = if occ_at(t, p, &appear, false) {
        p + appear.len()
    } else if occ_at(t, p, &bea, false) {
        p + bea.len()
    } else {
        p
    };
    let desc = chars_of("descendant of <");
    if !occ_at(t, q, &desc, false) {
        return None;
    }
    let b = ex_lower_end(t, q + desc.len());
    if b > q + desc.len() && b < t.len() && t[b] == '>' {
        Some(b + 1)
    } else {
        None
    }
}

/// The markup-nesting phrase, verbatim; failing that, the first line
/// mentioning a descendant.
fn extract_dom_issue(input: &str, t: &Vec<char>) -> (r: Option<String>)
    requires
        t@ == input@,
    ensures
        opt_view(r) == spec_issue_dom(input@),
        (r matches Some(s) ==> blen(s@) <= blen(input@)),
{
    let mut i: usize = 0;
    loop
        invariant
            t@ == input@,
            dom_scan(t@, 0) == dom_scan(t@, i as int),
        ensures
            (dom_scan(t@, 0) is None),
        decreases t.len() + 1 - i,
    {
        if i >= t.len() {
            break;
        }
        match ex_dom_end_at(t, i) {
            Some(e) => {
                proof {
                    lemma_blen_subrange(input@, i as int, e as int);
                }
                return Some(input.substring_char(i, e).to_owned());
            },
            None => {},
        }
        i += 1;
    }
    let mut nd: Vec<Vec<char>> = Vec::new();
    nd.push(chars_of("descendant"));
    proof {
        assert(nd.deep_view() =~~= seq!["descendant"@]);
    }
    find_line_containing(input, &nd)
}

/// The markup-nesting issue: the phrase itself, else a line containing the
/// fallback keyword.
pub open spec fn spec_issue_dom(t: Seq<char>) -> Option<Seq<char>> {
    match dom_scan(t, 0) {
        Some(ie) => Some(t.subrange(ie.0, ie.1)),
        None => spec_find_line_containing(t, seq!["descendant"@]),
    }
}

fn ex_sys_at(t: &Vec<char>, i: usize) -> (res: bool)
    requires
        i < t.len(),
    ensures
        res == sys_at(t@, i as int),
{
    if t[i] != 'E' {
        return false;
    }
    let u = ex_upper_end(t, i + 1);
    u > i + 1 && u < t.len() && t[u] == ':'
}

/// The OS error code with the rest of its line.
fn extract_sys_issue(input: &str, t: &Vec<char>) -> (r: Option<String>)
    requires
        t@ == input@,
    ensures
        opt_view(r) == spec_issue_sys(input@),
        (r matches Some(s) ==> blen(s@) <= blen(input@)),
{
    let mut i: usize = 0;
    loop
        invariant
            t@ == input@,
            sys_scan(t@, 0) == sys_scan(t@, i as int),
        decreases t.len() + 1 - i,
    {
        if i >= t.len() {
            return None;
        }
        if ex_sys_at(t, i) {
            let e = ex_nl_end(t, i);
            proof {
                lemma_blen_subrange(input@, i as int, e as int);
            }
            return Some(input.substring_char(i, e).to_owned());
        }
        i += 1;
    }
}

/// The OS error code issue: the code and the rest of its line.
pub open spec fn spec_issue_sys(t: Seq<char>) -> Option<Seq<char>> {
    match sys_scan(t, 0) {
        Some(i) => Some(t.subrange(i, nl_end(t, i))),
        None => None,
    }
}

/// The build-tool code with the rest of its line, cut to 100 bytes.
fn extract_sb_issue(input: &str, t: &Vec<char>) -> (r: Option<String>)
    requires
        t@ == input@,
        blen(input@) <= usize::MAX,
    ensures
        opt_view(r) == spec_issue_sb(input@),
        (r matches Some(s) ==> blen(s@) <= blen(input@) + 3),
{
    let sb = chars_of("SB_");
    let mut i: usize = 0;
    loop
        invariant
            t@ == input@,
            blen(input@) <= usize::MAX,
            sb@ == "SB_"@,
            sb_scan(t@, 0) == sb_scan(t@, i as int),
        decreases t.len() + 1 - i,
    {
        if i >= t.len() {
            return None;
        }
        if occ_at(t, i, &sb, false) {
            let c = ex_code_end(t, i + sb.len());
            if c > i + sb.len() {
                let e = ex_nl_end(t, i);
                proof {
                    lemma_blen_subrange(input@, i as int, e as int);
                    crate::text::lemma_truncate_blen(input@.subrange(i as int, e as int), 100);
                }
                return Some(truncate(input.substring_char(i, e), 100));
            }
        }
        proof {
            if sb_at(t@, i as int) {
                assert(false);
            }
        }
        i += 1;
    }
}

/// The build-tool code issue, truncated to 100 bytes.
pub open spec fn spec_issue_sb(t: Seq<char>) -> Option<Seq<char>> {
    match sb_scan(t, 0) {
        Some(i) => Some(spec_truncate(t.subrange(i, nl_end(t, i)), 100)),
        None => None,
    }
}

fn ex_njs_end_at(t: &Vec<char>, i: usize) -> (res: Option<usize>)
    requires
        i < t.len(),
    ensures
        match res {
            Some(e) => njs_end_at(t@, i as int) == Some(e as int) && i < e <= t.len(),
            None => njs_end_at(t@, i as int) is None,
        },
{
    let nx = chars_of("NEXT_");
    let nx_hit = occ_at(t, i, &nx, false);
    let mut nx_code: usize = i;
    if nx_hit {
        nx_code = ex_code_end(t, i + nx.len());
        if nx_code > i + nx.len() {
            return Some(nx_code);
        }
    }
    let g1 = chars_of("getServerSideProps");
    if occ_at(t, i, &g1, false) {
        return ex_njs_err_end(t, i + g1.len());
    }
    let g2 = chars_of("getStaticProps");
    if occ_at(t, i, &g2, false) {
        return ex_njs_err_end(t, i + g2.len());
    }
    None
}

fn ex_njs_err_end(t: &Vec<char>, p: usize) -> (res: Option<usize>)
    requires
        p <= t.len(),
    ensures
        match res {
            Some(e) => njs_err_end(t@, p as int) == Some(e as int) && p < e <= t.len(),
            None => njs_err_end(t@, p as int) is None,
        },
{
    let err = chars_of("error");
    proof {
        reveal_strlit("error");
    }
    let nl = ex_nl_end(t, p);
    if nl - p < err.len() {
        proof {
            assert(last_err(t@, p as int, nl_end(t@, p as int) - "error"@.len()) is None);
        }
        return None;
    }
    let mut j: usize = nl - err.len();
    loop
        invariant
            err@ == "error"@,
            "error"@.len() == 5,
            p <= j <= t.len(),
            last_err(t@, p as int, nl_end(t@, p as int) - "error"@.len()) == last_err(
                t@,
                p as int,
                j as int,
            ),
        decreases j + 1,
    {
        if occ_at(t, j, &err, false) {
            return Some(j + err.len());
        }
        if j == p {
            proof {
                assert(last_err(t@, p as int, p as int - 1) is None);
            }
            return None;
        }
        j -= 1;
    }
}

/// The framework issue, truncated to 100 bytes.
pub open spec fn spec_issue_njs(t: Seq<char>) -> Option<Seq<char>> {
    match njs_scan(t, 0) {
        Some(ie) => Some(spec_truncate(t.subrange(ie.0, ie.1), 100)),
        None => spec_find_line_containing(
            t,
            seq!["NEXT_"@, "getServerSideProps"@, "getStaticProps"@],
        ),
    }
}

/// The framework code or data-fetching phrase, truncated; failing that, a
/// line naming one of the framework markers.
fn extract_njs_issue(input: &str, t: &Vec<char>) -> (r: Option<String>)
    requires
        t@ == input@,
        blen(input@) <= usize::MAX,
    ensures
        opt_view(r) == spec_issue_njs(input@),
        (r matches Some(s) ==> blen(s@) <= blen(input@) + 3),
{
    let mut i: usize = 0;
    loop
        invariant
            t@ == input@,
            blen(input@) <= usize::MAX,
            njs_scan(t@, 0) == njs_scan(t@, i as int),
        ensures
            (njs_scan(t@, 0) is None),
        decreases t.len() + 1 - i,
    {
        if i >= t.len() {
            break;
        }
        match ex_njs_end_at(t, i) {
            Some(e) => {
                proof {
                    lemma_blen_subrange(input@, i as int, e as int);
                    crate::text::lemma_truncate_blen(input@.subrange(i as int, e as int), 100);
                }
                return Some(truncate(input.substring_char(i, e), 100));
            },
            None => {},
        }
        i += 1;
    }
    let mut nd: Vec<Vec<char>> = Vec::new();
    nd.push(chars_of("NEXT_"));
    nd.push(chars_of("getServerSideProps"));
    nd.push(chars_of("getStaticProps"));
    proof {
        assert(nd.deep_view() =~~= seq!["NEXT_"@, "getServerSideProps"@, "getStaticProps"@]);
    }
    find_line_containing(input, &nd)
}

/// The HTTP issue: the line quoting the first 4xx/5xx status code.
pub open spec fn spec_issue_http(t: Seq<char>) -> Option<Seq<char>> {
    match status_scan(t, 0) {
        Some(i) => spec_find_line_containing(t, seq![t.subrange(i, i + 3)]),
        None => None,
    }
}

fn extract_http_issue(input: &str, t: &Vec<char>) -> (r: Option<String>)
    requires
        t@ == input@,
    ensures
        opt_view(r) == spec_issue_http(input@),
        (r matches Some(s) ==> blen(s@) <= blen(input@)),
{
    let mut i: usize = 0;
    loop
        invariant
            t@ == input@,
            status_scan(t@, 0) == status_scan(t@, i as int),
        decreases t.len() + 1 - i,
    {
        if i >= t.len() {
            return None;
        }
        if crate::classify::ex_status_at(t, i) {
            let code = sub_vec(t, i, i + 3);
            let mut nd: Vec<Vec<char>> = Vec::new();
            nd.push(code);
            proof {
                assert(nd.deep_view() =~~= seq![t@.subrange(i as int, i + 3)]);
            }
            return find_line_containing(input, &nd);
        }
        i += 1;
    }
}


// ---------------------------------------------------------------------------
// User-frame extraction
// ---------------------------------------------------------------------------

/// At `p`: a recognized extension, a colon, and a digit.
pub open spec fn ext_colon_digit(l: Seq<char>, p: int, x: Seq<char>) -> bool {
    let c = p + x.len();
    &&& occ(l, p, x, false)
    &&& c < l.len() && l[c] == ':'
    &&& c + 1 < l.len() && is_digit(l[c + 1])
}

/// At `j`: a dot, a recognized extension, a colon, and a line number.
pub open spec fn dotstruct(l: Seq<char>, j: int) -> bool {
    &&& 0 <= j < l.len()
    &&& l[j] == '.'
    &&& {
        ||| ext_colon_digit(l, j + 1, "mdx"@)
        ||| ext_colon_digit(l, j + 1, "tsx"@)
        ||| ext_colon_digit(l, j + 1, "jsx"@)
        ||| ext_colon_digit(l, j + 1, "ts"@)
        ||| ext_colon_digit(l, j + 1, "js"@)
        ||| ext_colon_digit(l, j + 1, "vue"@)
        ||| ext_colon_digit(l, j + 1, "svelte"@)
    }
}

/// A call-site marker (`at ` or `@`) stands early enough before `j` for at
/// least one character to separate them.
pub open spec fn marker_ok(l: Seq<char>, j: int) -> bool {
    ||| (match find_lit(l, 0, "at "@, false) {
        Some(i) => i + "at "@.len() + 1 <= j,
        None => false,
    })
    ||| (match find_lit(l, 0, "@"@, false) {
        Some(i) => i + "@"@.len() + 1 <= j,
        None => false,
    })
}

pub open spec fn frame_dot_scan(l: Seq<char>, from: int) -> bool
    decreases l.len() - from,
{
    if from < 0 || from >= l.len() {
        false
    } else if dotstruct(l, from) && marker_ok(l, from) {
        true
    } else {
        frame_dot_scan(l, from + 1)
    }
}

/// The line is a stack frame referencing a recognized source extension.
pub open spec fn is_frame_line(l: Seq<char>) -> bool {
    frame_dot_scan(l, 0)
}

/// The line carries a framework, bundler or dependency marker.
pub open spec fn is_noise_line(l: Seq<char>) -> bool {
    ||| contains_lit(l, "chunk-"@, false)
    ||| contains_lit(l, "node_modules"@, false)
    ||| contains_lit(l, "storybook_internal"@, false)
    ||| contains_lit(l, "webpack"@, false)
    ||| contains_lit(l, "vite"@, false)
    ||| contains_lit(l, "/internal"@, false)
    ||| contains_lit(l, "react-dom"@, false)
}

/// A line worth keeping: an application frame that is not noise.
pub open spec fn keep_line(l: Seq<char>) -> bool {
    is_frame_line(l) && !is_noise_line(l)
}

/// The first `left` kept lines at or after index `k`, each trimmed.
pub open spec fn frames_of(ls: Seq<Seq<char>>, k: int, left: int) -> Seq<Seq<char>>
    decreases ls.len() - k,
{
    if k < 0 || k >= ls.len() || left <= 0 {
        Seq::empty()
    } else if keep_line(ls[k]) {
        seq![spec_trim(ls[k])] + frames_of(ls, k + 1, left - 1)
    } else {
        frames_of(ls, k + 1, left)
    }
}

/// The extracted frames: the first three kept lines, in document order.
pub open spec fn spec_user_frames(t: Seq<char>) -> Seq<Seq<char>> {
    frames_of(spec_lines(t), 0, 3)
}

/// No more frames are kept than asked for.
pub proof fn lemma_frames_of_len(ls: Seq<Seq<char>>, k: int, left: int)
    ensures
        0 <= frames_of(ls, k, left).len() <= (if left >= 0 {
            left
        } else {
            0
        }),
    decreases ls.len() - k,
{
    if k < 0 || k >= ls.len() || left <= 0 {
    } else if keep_line(ls[k]) {
        lemma_frames_of_len(ls, k + 1, left - 1);
    } else {
        lemma_frames_of_len(ls, k + 1, left);
    }
}

fn ex_ecd(l: &Vec<char>, p: usize, x: &Vec<char>) -> (r: bool)
    ensures
        r == ext_colon_digit(l@, p as int, x@),
{
    if !occ_at(l, p, x, false) {
        return false;
    }
    let llen: usize = l.len();
    proof {
        assert(p + x@.len() <= llen);
    }
    let c: usize = p + x.len();
    c < l.len() && l[c] == ':' && c + 1 < l.len() && ex_is_digit(l[c + 1])
}

fn ex_dotstruct(l: &Vec<char>, j: usize) -> (r: bool)
    requires
        j < l.len(),
    ensures
        r == dotstruct(l@, j as int),
{
    if l[j] != '.' {
        return false;
    }
    ex_ecd(l, j + 1, &chars_of("mdx")) || ex_ecd(l, j + 1, &chars_of("tsx")) || ex_ecd(
        l,
        j + 1,
        &chars_of("jsx"),
    ) || ex_ecd(l, j + 1, &chars_of("ts")) || ex_ecd(l, j + 1, &chars_of("js")) || ex_ecd(
        l,
        j + 1,
        &chars_of("vue"),
    ) || ex_ecd(l, j + 1, &chars_of("svelte"))
}

fn ex_is_frame_line(l: &Vec<char>) -> (r: bool)
    ensures
        r == is_frame_line(l@),
{
    proof {
        reveal_strlit("at ");
        reveal_strlit("@");
    }
    let fa = find_from(l, 0, &chars_of("at "), false);
    let fm = find_from(l, 0, &chars_of("@"), false);
    let mut j: usize = 0;
    loop
        invariant
            "at "@.len() == 3,
            "@"@.len() == 1,
            (match fa {
                Some(i) => find_lit(l@, 0, "at "@, false) == Some(i as int),
                None => find_lit(l@, 0, "at "@, false) is None,
            }),
            (match fm {
                Some(i) => find_lit(l@, 0, "@"@, false) == Some(i as int),
                None => find_lit(l@, 0, "@"@, false) is None,
            }),
            frame_dot_scan(l@, 0) == frame_dot_scan(l@, j as int),
        decreases l.len() + 1 - j,
    {
        if j >= l.len() {
            return false;
        }
        if ex_dotstruct(l, j) {
            let m1: bool = match fa {
                Some(i) => j >= 4 && i <= j - 4,
                None => false,
            };
            let m2: bool = match fm {
                Some(i) => j >= 2 && i <= j - 2,
                None => false,
            };
            if m1 || m2 {
                return true;
            }
        }
        proof {
            if dotstruct(l@, j as int) && marker_ok(l@, j as int) {
                assert(false);
            }
        }
        j += 1;
    }
}

fn ex_is_noise_line(l: &Vec<char>) -> (r: bool)
    ensures
        r == is_noise_line(l@),
{
    contains(l, &chars_of("chunk-"), false) || contains(l, &chars_of("node_modules"), false)
        || contains(l, &chars_of("storybook_internal"), false) || contains(
        l,
        &chars_of("webpack"),
        false,
    ) || contains(l, &chars_of("vite"), false) || contains(l, &chars_of("/internal"), false)
        || contains(l, &chars_of("react-dom"), false)
}

/// Collect the first three application-authored stack-frame lines, in
/// document order, trimmed, skipping any line with a noise marker.
#[verifier::loop_isolation(false)]
#[verifier::rlimit(50)]
pub fn extract_user_frames(input: &str) -> (r: Vec<String>)
    ensures
        r@.len() == spec_user_frames(input@).len(),
        forall|m: int|
            0 <= m < r@.len() ==> (#[trigger] r@[m])@ == spec_user_frames(input@)[m] && blen(
                r@[m]@,
            ) <= blen(input@),
{
    let t = chars_of(input);
    let bounds = line_bounds(&t);
    let ghost ls = spec_lines(input@);
    let mut r: Vec<String> = Vec::new();
    let mut k: usize = 0;
    loop
        invariant
            k <= bounds.len(),
            r@.len() <= 3,
            forall|m: int| 0 <= m < r@.len() ==> blen((#[trigger] r@[m])@) <= blen(input@),
            frames_of(ls, 0, 3) =~= Seq::new(r@.len() as nat, |m: int| r@[m]@) + frames_of(
                ls,
                k as int,
                3 - r@.len(),
            ),
        decreases bounds.len() - k,
    {
        if k >= bounds.len() {
            proof {
                assert(frames_of(ls, k as int, 3 - r@.len()) =~= Seq::<Seq<char>>::empty());
            }
            break;
        }
        if r.len() == 3 {
            proof {
                assert(frames_of(ls, k as int, 0) =~= Seq::<Seq<char>>::empty());
            }
            break;
        }
        let a = bounds[k].0;
        let b = bounds[k].1;
        let lv = sub_vec(&t, a, b);
        if ex_is_frame_line(&lv) && !ex_is_noise_line(&lv) {
            let tr = trim_range(&t, a, b);
            let ghost old_r = r@;
            r.push(input.substring_char(tr.0, tr.1).to_owned());
            proof {
                lemma_blen_subrange(input@, tr.0 as int, tr.1 as int);
                let f_old = Seq::new(old_r.len() as nat, |m: int| old_r[m]@);
                let f_new = Seq::new(r@.len() as nat, |m: int| r@[m]@);
                assert(r@[r@.len() - 1]@ == spec_trim(ls[k as int]));
                assert(f_new =~= f_old + seq![spec_trim(ls[k as int])]);
                assert(frames_of(ls, k as int, 3 - old_r.len()) =~= seq![spec_trim(ls[k as int])]
                    + frames_of(ls, k + 1, 3 - old_r.len() - 1));
                assert(f_old + seq![spec_trim(ls[k as int])] + frames_of(ls, k + 1, 3 - r@.len())
                    =~= f_old + (seq![spec_trim(ls[k as int])] + frames_of(
                    ls,
                    k + 1,
                    3 - r@.len(),
                )));
            }
        } else {
            proof {
                assert(!keep_line(ls[k as int]));
            }
        }
        k += 1;
    }
    proof {
        lemma_frames_of_len(ls, 0, 3);
        assert(forall|m: int|
            0 <= m < r@.len() ==> (#[trigger] r@[m])@ == Seq::new(
                r@.len() as nat,
                |m2: int| r@[m2]@,
            )[m]);
    }
    r
}


// ---------------------------------------------------------------------------
// Issue dispatch
// ---------------------------------------------------------------------------

/// The issue summary extracted for one category.
pub open spec fn spec_extract_issue(cat: ErrorType, t: Seq<char>) -> Option<Seq<char>> {
    match cat {
        ErrorType::DomNesting => spec_issue_dom(t),
        ErrorType::Hydration => spec_find_line_containing(t, seq!["hydration"@, "mismatch"@, "server"@, "client"@]),
        ErrorType::ReactMinified => spec_find_line_containing(t, seq!["Minified React error"@, "react.production"@]),
        ErrorType::InvalidHook => spec_find_line_containing(t, seq!["Invalid hook"@, "Rules of Hooks"@, "rendered more hooks"@]),
        ErrorType::ReactKey => spec_find_line_starting_with(t, seq!["Encountered two children with the same key"@]),
        ErrorType::TypeError => spec_find_line_starting_with(t, seq!["TypeError:"@, "Uncaught TypeError"@]),
        ErrorType::RefError => spec_find_line_starting_with(t, seq!["ReferenceError:"@, "Uncaught ReferenceError"@]),
        ErrorType::SyntaxError => spec_find_line_starting_with(t, seq!["SyntaxError:"@, "Uncaught SyntaxError"@]),
        ErrorType::RangeError => spec_find_line_starting_with(t, seq!["RangeError:"@, "Uncaught RangeError"@]),
        ErrorType::UriError => spec_find_line_starting_with(t, seq!["URIError:"@, "Uncaught URIError"@]),
        ErrorType::EvalError => spec_find_line_starting_with(t, seq!["EvalError:"@, "Uncaught EvalError"@]),
        ErrorType::CorsError => spec_find_line_containing(t, seq!["CORS"@, "Access-Control"@, "cross-origin"@, "blocked"@]),
        ErrorType::NetworkError => spec_find_line_containing(t, seq!["Failed to fetch"@, "NetworkError"@, "net::ERR_"@, "fetch"@]),
        ErrorType::HttpError => spec_issue_http(t),
        ErrorType::WebSocketError => spec_find_line_containing(t, seq!["WebSocket"@, "ws://"@, "wss://"@]),
        ErrorType::CspError => spec_find_line_containing(t, seq!["Content-Security-Policy"@, "CSP"@, "directive"@, "violated"@]),
        ErrorType::SecurityError => spec_find_line_containing(t, seq!["SecurityError"@, "security"@, "blocked"@]),
        ErrorType::MixedContent => spec_find_line_containing(t, seq!["Mixed Content"@, "insecure"@, "http://"@]),
        ErrorType::Storybook => spec_issue_sb(t),
        ErrorType::NextJs => spec_issue_njs(t),
        ErrorType::ModuleNotFound => spec_find_line_containing(t, seq!["Module not found"@, "Cannot find module"@, "Cannot resolve"@]),
        ErrorType::Playwright => spec_find_line_containing(t, seq!["TimeoutError"@, "locator"@, "expect("@, "waiting for"@, "strict mode"@, "Timeout"@]),
        ErrorType::SystemError => spec_issue_sys(t),
        ErrorType::UnhandledRejection => spec_find_line_containing(t, seq!["Unhandled"@, "rejection"@, "promise"@]),
        ErrorType::MediaError => spec_find_line_containing(t, seq!["MediaError"@, "play()"@, "autoplay"@, "media"@]),
        ErrorType::IndexedDbError => spec_find_line_containing(t, seq!["IndexedDB"@, "IDBDatabase"@, "QuotaExceeded"@]),
        ErrorType::ServiceWorker => spec_find_line_containing(t, seq!["ServiceWorker"@, "service worker"@, "SW"@]),
        ErrorType::Deprecation => spec_find_line_containing(t, seq!["deprecated"@, "deprecation"@, "will be removed"@]),
        ErrorType::RuntimeError => if spec_lines(t).len() > 0 {
            Some(spec_lines(t)[0])
        } else {
            None
        },
    }
}

/// Derive the one-line issue summary for the category, using that
/// category's extraction strategy.
pub fn extract_issue(input: &str, error_type: ErrorType) -> (r: Option<String>)
    requires
        blen(input@) <= usize::MAX,
    ensures
        opt_view(r) == spec_extract_issue(error_type, input@),
        (r matches Some(s) ==> blen(s@) <= blen(input@) + 3),
{
    let t = chars_of(input);
    match error_type {
        ErrorType::DomNesting => extract_dom_issue(input, &t),
        ErrorType::Hydration => {
            let mut nd: Vec<Vec<char>> = Vec::new();
            nd.push(chars_of("hydration"));
            nd.push(chars_of("mismatch"));
            nd.push(chars_of("server"));
            nd.push(chars_of("client"));
            proof {
                assert(nd.deep_view() =~~= seq!["hydration"@, "mismatch"@, "server"@, "client"@]);
            }
            find_line_containing(input, &nd)
        },
        ErrorType::ReactMinified => {
            let mut nd: Vec<Vec<char>> = Vec::new();
            nd.push(chars_of("Minified React error"));
            nd.push(chars_of("react.production"));
            proof {
                assert(nd.deep_view() =~~= seq!["Minified React error"@, "react.production"@]);
            }
            find_line_containing(input, &nd)
        },
        ErrorType::InvalidHook => {
            let mut nd: Vec<Vec<char>> = Vec::new();
            nd.push(chars_of("Invalid hook"));
            nd.push(chars_of("Rules of Hooks"));
            nd.push(chars_of("rendered more hooks"));
            proof {
                assert(nd.deep_view() =~~= seq!["Invalid hook"@, "Rules of Hooks"@, "rendered more hooks"@]);
            }
            find_line_containing(input, &nd)
        },
        ErrorType::ReactKey => {
            let mut nd: Vec<Vec<char>> = Vec::new();
            nd.push(chars_of("Encountered two children with the same key"));
            proof {
                assert(nd.deep_view() =~~= seq!["Encountered two children with the same key"@]);
            }
            find_line_starting_with(input, &nd)
        },
        ErrorType::TypeError => {
            let mut nd: Vec<Vec<char>> = Vec::new();
            nd.push(chars_of("TypeError:"));
            nd.push(chars_of("Uncaught TypeError"));
            proof {
                assert(nd.deep_view() =~~= seq!["TypeError:"@, "Uncaught TypeError"@]);
            }
            find_line_starting_with(input, &nd)
        },
        ErrorType::RefError => {
            let mut nd: Vec<Vec<char>> = Vec::new();
            nd.push(chars_of("ReferenceError:"));
            nd.push(chars_of("Uncaught ReferenceError"));
            proof {
                assert(nd.deep_view() =~~= seq!["ReferenceError:"@, "Uncaught ReferenceError"@]);
            }
            find_line_starting_with(input, &nd)
        },
        ErrorType::SyntaxError => {
            let mut nd: Vec<Vec<char>> = Vec::new();
            nd.push(chars_of("SyntaxError:"));
            nd.push(chars_of("Uncaught SyntaxError"));
            proof {
                assert(nd.deep_view() =~~= seq!["SyntaxError:"@, "Uncaught SyntaxError"@]);
            }
            find_line_starting_with(input, &nd)
        },
        ErrorType::RangeError => {
            let mut nd: Vec<Vec<char>> = Vec::new();
            nd.push(chars_of("RangeError:"));
            nd.push(chars_of("Uncaught RangeError"));
            proof {
                assert(nd.deep_view() =~~= seq!["RangeError:"@, "Uncaught RangeError"@]);
            }
            find_line_starting_with(input, &nd)
        },
        ErrorType::UriError => {
            let mut nd: Vec<Vec<char>> = Vec::new();
            nd.push(chars_of("URIError:"));
            nd.push(chars_of("Uncaught URIError"));
            proof {
                assert(nd.deep_view() =~~= seq!["URIError:"@, "Uncaught URIError"@]);
            }
            find_line_starting_with(input, &nd)
        },
        ErrorType::EvalError => {
            let mut nd: Vec<Vec<char>> = Vec::new();
            nd.push(chars_of("EvalError:"));
            nd.push(chars_of("Uncaught EvalError"));
            proof {
                assert(nd.deep_view() =~~= seq!["EvalError:"@, "Uncaught EvalError"@]);
            }
            find_line_starting_with(input, &nd)
        },
        ErrorType::CorsError => {
            let mut nd: Vec<Vec<char>> = Vec::new();
            nd.push(chars_of("CORS"));
            nd.push(chars_of("Access-Control"));
            nd.push(chars_of("cross-origin"));
            nd.push(chars_of("blocked"));
            proof {
                assert(nd.deep_view() =~~= seq!["CORS"@, "Access-Control"@, "cross-origin"@, "blocked"@]);
            }
            find_line_containing(input, &nd)
        },
        ErrorType::NetworkError => {
            let mut nd: Vec<Vec<char>> = Vec::new();
            nd.push(chars_of("Failed to fetch"));
            nd.push(chars_of("NetworkError"));
            nd.push(chars_of("net::ERR_"));
            nd.push(chars_of("fetch"));
            proof {
                assert(nd.deep_view() =~~= seq!["Failed to fetch"@, "NetworkError"@, "net::ERR_"@, "fetch"@]);
            }
            find_line_containing(input, &nd)
        },
        ErrorType::HttpError => extract_http_issue(input, &t),
        ErrorType::WebSocketError => {
            let mut nd: Vec<Vec<char>> = Vec::new();
            nd.push(chars_of("WebSocket"));
            nd.push(chars_of("ws://"));
            nd.push(chars_of("wss://"));
            proof {
                assert(nd.deep_view() =~~= seq!["WebSocket"@, "ws://"@, "wss://"@]);
            }
            find_line_containing(input, &nd)
        },
        ErrorType::CspError => {
            let mut nd: Vec<Vec<char>> = Vec::new();
            nd.push(chars_of("Content-Security-Policy"));
            nd.push(chars_of("CSP"));
            nd.push(chars_of("directive"));
            nd.push(chars_of("violated"));
            proof {
                assert(nd.deep_view() =~~= seq!["Content-Security-Policy"@, "CSP"@, "directive"@, "violated"@]);
            }
            find_line_containing(input, &nd)
        },
        ErrorType::SecurityError => {
            let mut nd: Vec<Vec<char>> = Vec::new();
            nd.push(chars_of("SecurityError"));
            nd.push(chars_of("security"));
            nd.push(chars_of("blocked"));
            proof {
                assert(nd.deep_view() =~~= seq!["SecurityError"@, "security"@, "blocked"@]);
            }
            find_line_containing(input, &nd)
        },
        ErrorType::MixedContent => {
            let mut nd: Vec<Vec<char>> = Vec::new();
            nd.push(chars_of("Mixed Content"));
            nd.push(chars_of("insecure"));
            nd.push(chars_of("http://"));
            proof {
                assert(nd.deep_view() =~~= seq!["Mixed Content"@, "insecure"@, "http://"@]);
            }
            find_line_containing(input, &nd)
        },
        ErrorType::Storybook => extract_sb_issue(input, &t),
        ErrorType::NextJs => extract_njs_issue(input, &t),
        ErrorType::ModuleNotFound => {
            let mut nd: Vec<Vec<char>> = Vec::new();
            nd.push(chars_of("Module not found"));
            nd.push(chars_of("Cannot find module"));
            nd.push(chars_of("Cannot resolve"));
            proof {
                assert(nd.deep_view() =~~= seq!["Module not found"@, "Cannot find module"@, "Cannot resolve"@]);
            }
            find_line_containing(input, &nd)
        },
        ErrorType::Playwright => {
            let mut nd: Vec<Vec<char>> = Vec::new();
            nd.push(chars_of("TimeoutError"));
            nd.push(chars_of("locator"));
            nd.push(chars_of("expect("));
            nd.push(chars_of("waiting for"));
            nd.push(chars_of("strict mode"));
            nd.push(chars_of("Timeout"));
            proof {
                assert(nd.deep_view() =~~= seq!["TimeoutError"@, "locator"@, "expect("@, "waiting for"@, "strict mode"@, "Timeout"@]);
            }
            find_line_containing(input, &nd)
        },
        ErrorType::SystemError => extract_sys_issue(input, &t),
        ErrorType::UnhandledRejection => {
            let mut nd: Vec<Vec<char>> = Vec::new();
            nd.push(chars_of("Unhandled"));
            nd.push(chars_of("rejection"));
            nd.push(chars_of("promise"));
            proof {
                assert(nd.deep_view() =~~= seq!["Unhandled"@, "rejection"@, "promise"@]);
            }
            find_line_containing(input, &nd)
        },
        ErrorType::MediaError => {
            let mut nd: Vec<Vec<char>> = Vec::new();
            nd.push(chars_of("MediaError"));
            nd.push(chars_of("play()"));
            nd.push(chars_of("autoplay"));
            nd.push(chars_of("media"));
            proof {
                assert(nd.deep_view() =~~= seq!["MediaError"@, "play()"@, "autoplay"@, "media"@]);
            }
            find_line_containing(input, &nd)
        },
        ErrorType::IndexedDbError => {
            let mut nd: Vec<Vec<char>> = Vec::new();
            nd.push(chars_of("IndexedDB"));
            nd.push(chars_of("IDBDatabase"));
            nd.push(chars_of("QuotaExceeded"));
            proof {
                assert(nd.deep_view() =~~= seq!["IndexedDB"@, "IDBDatabase"@, "QuotaExceeded"@]);
            }
            find_line_containing(input, &nd)
        },
        ErrorType::ServiceWorker => {
            let mut nd: Vec<Vec<char>> = Vec::new();
            nd.push(chars_of("ServiceWorker"));
            nd.push(chars_of("service worker"));
            nd.push(chars_of("SW"));
            proof {
                assert(nd.deep_view() =~~= seq!["ServiceWorker"@, "service worker"@, "SW"@]);
            }
            find_line_containing(input, &nd)
        },
        ErrorType::Deprecation => {
            let mut nd: Vec<Vec<char>> = Vec::new();
            nd.push(chars_of("deprecated"));
            nd.push(chars_of("deprecation"));
            nd.push(chars_of("will be removed"));
            proof {
                assert(nd.deep_view() =~~= seq!["deprecated"@, "deprecation"@, "will be removed"@]);
            }
            find_line_containing(input, &nd)
        },
        ErrorType::RuntimeError => {
            let bounds = line_bounds(&t);
            if bounds.len() > 0 {
                let a = bounds[0].0;
                let b = bounds[0].1;
                proof {
                    lemma_blen_subrange(input@, a as int, b as int);
                }
                Some(input.substring_char(a, b).to_owned())
            } else {
                None
            }
        },
    }
}

} // verus!
