//! Character-level primitives: ASCII character classes, case-insensitive
//! literal matching, leftmost-occurrence scans, newline-bounded gap scans,
//! UTF-8 byte lengths, and the shared truncation utility.
//!
//! All detection rules of this library are built from these primitives.
//! Case-insensitivity is ASCII case-insensitivity; a "gap" never crosses a
//! newline, mirroring how a `.`-style wildcard matches any character except
//! a line break.

use vstd::prelude::*;
use vstd::string::{StrSliceExecFns, StringExecFns};
use vstd::utf8::{encode_scalar, encode_utf8};

verus! {

// ---------------------------------------------------------------------------
// Character classes (ASCII)
// ---------------------------------------------------------------------------

/// Decimal digit `0`..=`9`.
pub open spec fn is_digit(c: char) -> bool {
    48 <= c as u32 && c as u32 <= 57
}

/// ASCII whitespace: space, tab, line feed, vertical tab, form feed,
/// carriage return.
pub open spec fn is_space(c: char) -> bool {
    c == ' ' || c == '\t' || c == '\n' || c == '\x0b' || c == '\x0c' || c == '\r'
}

/// ASCII uppercase letter.
pub open spec fn is_upper(c: char) -> bool {
    65 <= c as u32 && c as u32 <= 90
}

/// ASCII lowercase letter.
pub open spec fn is_lower(c: char) -> bool {
    97 <= c as u32 && c as u32 <= 122
}

/// Word character: letter, digit or underscore.
pub open spec fn is_word(c: char) -> bool {
    is_upper(c) || is_lower(c) || is_digit(c) || c == '_'
}

/// Characters allowed in a file-name token: letters, digits, `_`, `.`, `-`.
pub open spec fn is_file_char(c: char) -> bool {
    is_upper(c) || is_lower(c) || is_digit(c) || c == '_' || c == '.' || c == '-'
}

pub fn ex_is_digit(c: char) -> (r: bool)
    ensures
        r == is_digit(c),
{
    let u = c as u32;
    48 <= u && u <= 57
}

pub fn ex_is_space(c: char) -> (r: bool)
    ensures
        r == is_space(c),
{
    c == ' ' || c == '\t' || c == '\n' || c == '\x0b' || c == '\x0c' || c == '\r'
}

pub fn ex_is_upper(c: char) -> (r: bool)
    ensures
        r == is_upper(c),
{
    let u = c as u32;
    65 <= u && u <= 90
}

pub fn ex_is_lower(c: char) -> (r: bool)
    ensures
        r == is_lower(c),
{
    let u = c as u32;
    97 <= u && u <= 122
}

pub fn ex_is_word(c: char) -> (r: bool)
    ensures
        r == is_word(c),
{
    ex_is_upper(c) || ex_is_lower(c) || ex_is_digit(c) || c == '_'
}

pub fn ex_is_file_char(c: char) -> (r: bool)
    ensures
        r == is_file_char(c),
{
    ex_is_word(c) || c == '.' || c == '-'
}

// ---------------------------------------------------------------------------
// Character equality, optionally ASCII-case-insensitive
// ---------------------------------------------------------------------------

/// ASCII-case-insensitive character equality.
pub open spec fn char_ieq(a: char, b: char) -> bool {
    a == b || (is_upper(a) && a as u32 + 32 == b as u32) || (is_upper(b) && b as u32 + 32
        == a as u32)
}

/// Character equality, case-insensitive when `ci` is set.
pub open spec fn chr_eq(ci: bool, a: char, b: char) -> bool {
    if ci {
        char_ieq(a, b)
    } else {
        a == b
    }
}

pub fn ex_chr_eq(ci: bool, a: char, b: char) -> (r: bool)
    ensures
        r == chr_eq(ci, a, b),
{
    if a == b {
        true
    } else if ci {
        let ua = a as u32;
        let ub = b as u32;
        (65 <= ua && ua <= 90 && ua + 32 == ub) || (65 <= ub && ub <= 90 && ub + 32 == ua)
    } else {
        false
    }
}

// ---------------------------------------------------------------------------
// Literal occurrence
// ---------------------------------------------------------------------------

/// The literal `p` occurs in `t` at position `i` (case-insensitive when `ci`).
pub open spec fn occ(t: Seq<char>, i: int, p: Seq<char>, ci: bool) -> bool {
    &&& 0 <= i
    &&& i + p.len() <= t.len()
    &&& forall|k: int| 0 <= k < p.len() ==> chr_eq(ci, t[i + k], p[k])
}

/// Exact check of one occurrence.
pub fn occ_at(t: &Vec<char>, i: usize, p: &Vec<char>, ci: bool) -> (r: bool)
    ensures
        r == occ(t@, i as int, p@, ci),
{
    if i > t.len() || p.len() > t.len() - i {
        return false;
    }
    let mut k: usize = 0;
    while k < p.len()
        invariant
            i + p.len() <= t.len(),
            k <= p.len(),
            forall|k2: int| 0 <= k2 < k ==> chr_eq(ci, t@[i + k2], p@[k2]),
        decreases p.len() - k,
    {
        if !ex_chr_eq(ci, t[i + k], p[k]) {
            return false;
        }
        k += 1;
    }
    true
}

/// Position of the leftmost occurrence of `p` at or after `from`.
pub open spec fn find_lit(t: Seq<char>, from: int, p: Seq<char>, ci: bool) -> Option<int>
    decreases t.len() - from,
{
    if from < 0 || from + p.len() > t.len() {
        None
    } else if occ(t, from, p, ci) {
        Some(from)
    } else {
        find_lit(t, from + 1, p, ci)
    }
}

/// The literal `p` occurs somewhere in `t`.
pub open spec fn contains_lit(t: Seq<char>, p: Seq<char>, ci: bool) -> bool {
    find_lit(t, 0, p, ci) is Some
}

pub proof fn lemma_find_lit_occ(t: Seq<char>, from: int, p: Seq<char>, ci: bool)
    ensures
        find_lit(t, from, p, ci) matches Some(i) ==> from <= i && occ(t, i, p, ci),
    decreases t.len() - from,
{
    if from < 0 || from + p.len() > t.len() {
    } else if occ(t, from, p, ci) {
    } else {
        lemma_find_lit_occ(t, from + 1, p, ci);
    }
}

pub fn find_from(t: &Vec<char>, from: usize, p: &Vec<char>, ci: bool) -> (r: Option<usize>)
    ensures
        match r {
            Some(i) => find_lit(t@, from as int, p@, ci) == Some(i as int),
            None => find_lit(t@, from as int, p@, ci) is None,
        },
{
    let mut i: usize = from;
    loop
        invariant
            from <= i,
            find_lit(t@, from as int, p@, ci) == find_lit(t@, i as int, p@, ci),
        decreases t.len() + 1 - i,
    {
        if i > t.len() || p.len() > t.len() - i {
            assert(find_lit(t@, i as int, p@, ci) is None);
            return None;
        }
        if occ_at(t, i, p, ci) {
            return Some(i);
        }
        proof {
            if i == t.len() {
                assert(occ(t@, i as int, p@, ci));
            }
        }
        i += 1;
    }
}

/// The literal occurs somewhere in the text.
pub fn contains(t: &Vec<char>, p: &Vec<char>, ci: bool) -> (r: bool)
    ensures
        r == contains_lit(t@, p@, ci),
{
    find_from(t, 0, p, ci).is_some()
}

// ---------------------------------------------------------------------------
// Newline-bounded scans: the spec of `A.*B`-style rules, where the gap
// matches any characters except a line break.
// ---------------------------------------------------------------------------

/// Scanning forward from `from`, the literal `p` occurs before a newline
/// interrupts the gap.
pub open spec fn hit_before_nl(t: Seq<char>, from: int, p: Seq<char>, ci: bool) -> bool
    decreases t.len() - from,
{
    if from < 0 || from > t.len() {
        false
    } else if occ(t, from, p, ci) {
        true
    } else if from >= t.len() || t[from] == '\n' {
        false
    } else {
        hit_before_nl(t, from + 1, p, ci)
    }
}

/// Somewhere in `t`, literal `a` followed (with no intervening newline) by
/// literal `b`.
pub open spec fn chain2_from(t: Seq<char>, from: int, a: Seq<char>, b: Seq<char>, ci: bool) -> bool
    decreases t.len() - from,
{
    if from < 0 || from >= t.len() {
        false
    } else if occ(t, from, a, ci) && hit_before_nl(t, from + a.len(), b, ci) {
        true
    } else {
        chain2_from(t, from + 1, a, b, ci)
    }
}

pub open spec fn chain2(t: Seq<char>, a: Seq<char>, b: Seq<char>, ci: bool) -> bool {
    chain2_from(t, 0, a, b, ci)
}

/// Scanning forward from `from`, literal `b` occurs before a newline, and is
/// itself followed (with no intervening newline) by literal `c`.
pub open spec fn hit2_before_nl(
    t: Seq<char>,
    from: int,
    b: Seq<char>,
    c: Seq<char>,
    ci: bool,
) -> bool
    decreases t.len() - from,
{
    if from < 0 || from > t.len() {
        false
    } else if occ(t, from, b, ci) && hit_before_nl(t, from + b.len(), c, ci) {
        true
    } else if from >= t.len() || t[from] == '\n' {
        false
    } else {
        hit2_before_nl(t, from + 1, b, c, ci)
    }
}

/// Somewhere in `t`, literal `a`, then `b`, then `c`, with no newline inside
/// either gap.
pub open spec fn chain3_from(
    t: Seq<char>,
    from: int,
    a: Seq<char>,
    b: Seq<char>,
    c: Seq<char>,
    ci: bool,
) -> bool
    decreases t.len() - from,
{
    if from < 0 || from >= t.len() {
        false
    } else if occ(t, from, a, ci) && hit2_before_nl(t, from + a.len(), b, c, ci) {
        true
    } else {
        chain3_from(t, from + 1, a, b, c, ci)
    }
}

pub open spec fn chain3(t: Seq<char>, a: Seq<char>, b: Seq<char>, c: Seq<char>, ci: bool) -> bool {
    chain3_from(t, 0, a, b, c, ci)
}

fn scan_before_nl(t: &Vec<char>, from: usize, p: &Vec<char>, ci: bool) -> (r: bool)
    ensures
        r == hit_before_nl(t@, from as int, p@, ci),
{
    let mut j: usize = from;
    loop
        invariant
            from <= j,
            hit_before_nl(t@, from as int, p@, ci) == hit_before_nl(t@, j as int, p@, ci),
        decreases t.len() + 1 - j,
    {
        if j > t.len() {
            return false;
        }
        if occ_at(t, j, p, ci) {
            return true;
        }
        if j >= t.len() || t[j] == '\n' {
            return false;
        }
        j += 1;
    }
}

/// `a` then `b`, gap free of newlines.
pub fn match_chain2(t: &Vec<char>, a: &Vec<char>, b: &Vec<char>, ci: bool) -> (r: bool)
    ensures
        r == chain2(t@, a@, b@, ci),
{
    let mut i: usize = 0;
    loop
        invariant
            chain2(t@, a@, b@, ci) == chain2_from(t@, i as int, a@, b@, ci),
        decreases t.len() + 1 - i,
    {
        if i >= t.len() {
            return false;
        }
        if occ_at(t, i, a, ci) {
            if scan_before_nl(t, i + a.len(), b, ci) {
                return true;
            }
        }
        i += 1;
    }
}

fn scan2_before_nl(t: &Vec<char>, from: usize, b: &Vec<char>, c: &Vec<char>, ci: bool) -> (r: bool)
    ensures
        r == hit2_before_nl(t@, from as int, b@, c@, ci),
{
    let mut j: usize = from;
    loop
        invariant
            from <= j,
            hit2_before_nl(t@, from as int, b@, c@, ci) == hit2_before_nl(
                t@,
                j as int,
                b@,
                c@,
                ci,
            ),
        decreases t.len() + 1 - j,
    {
        if j > t.len() {
            return false;
        }
        if occ_at(t, j, b, ci) {
            if scan_before_nl(t, j + b.len(), c, ci) {
                return true;
            }
        }
        if j >= t.len() || t[j] == '\n' {
            return false;
        }
        j += 1;
    }
}

/// `a`, then `b`, then `c`, with both gaps free of newlines.
pub fn match_chain3(t: &Vec<char>, a: &Vec<char>, b: &Vec<char>, c: &Vec<char>, ci: bool) -> (r:
    bool)
    ensures
        r == chain3(t@, a@, b@, c@, ci),
{
    let mut i: usize = 0;
    loop
        invariant
            chain3(t@, a@, b@, c@, ci) == chain3_from(t@, i as int, a@, b@, c@, ci),
        decreases t.len() + 1 - i,
    {
        if i >= t.len() {
            return false;
        }
        if occ_at(t, i, a, ci) {
            if scan2_before_nl(t, i + a.len(), b, c, ci) {
                return true;
            }
        }
        i += 1;
    }
}

// ---------------------------------------------------------------------------
// Character runs
// ---------------------------------------------------------------------------

/// End of the run of whitespace characters starting at `i`.
pub open spec fn ws_end(s: Seq<char>, i: int) -> int
    decreases s.len() - i,
{
    if 0 <= i < s.len() && is_space(s[i]) {
        ws_end(s, i + 1)
    } else {
        i
    }
}

/// End of the run of non-whitespace characters starting at `i`.
pub open spec fn non_space_end(s: Seq<char>, i: int) -> int
    decreases s.len() - i,
{
    if 0 <= i < s.len() && !is_space(s[i]) {
        non_space_end(s, i + 1)
    } else {
        i
    }
}

pub proof fn lemma_non_space_end(s: Seq<char>, i: int)
    requires
        0 <= i <= s.len(),
    ensures
        i <= non_space_end(s, i) <= s.len(),
        forall|k: int| i <= k < non_space_end(s, i) ==> !is_space(s[k]),
        non_space_end(s, i) < s.len() ==> is_space(s[non_space_end(s, i)]),
    decreases s.len() - i,
{
    if 0 <= i < s.len() && !is_space(s[i]) {
        lemma_non_space_end(s, i + 1);
    }
}

pub fn ex_non_space_end(t: &Vec<char>, i: usize) -> (r: usize)
    requires
        i <= t.len(),
    ensures
        r == non_space_end(t@, i as int),
        i <= r <= t.len(),
{
    let mut j: usize = i;
    while j < t.len() && !ex_is_space(t[j])
        invariant
            i <= j <= t.len(),
            non_space_end(t@, i as int) == non_space_end(t@, j as int),
        decreases t.len() - j,
    {
        j += 1;
    }
    j
}

/// End of the run of word characters starting at `i`.
pub open spec fn word_end(s: Seq<char>, i: int) -> int
    decreases s.len() - i,
{
    if 0 <= i < s.len() && is_word(s[i]) {
        word_end(s, i + 1)
    } else {
        i
    }
}

/// End of the run of decimal digits starting at `i`.
pub open spec fn digits_end(s: Seq<char>, i: int) -> int
    decreases s.len() - i,
{
    if 0 <= i < s.len() && is_digit(s[i]) {
        digits_end(s, i + 1)
    } else {
        i
    }
}

pub proof fn lemma_ws_end(s: Seq<char>, i: int)
    requires
        0 <= i <= s.len(),
    ensures
        i <= ws_end(s, i) <= s.len(),
        forall|k: int| i <= k < ws_end(s, i) ==> is_space(s[k]),
        ws_end(s, i) < s.len() ==> !is_space(s[ws_end(s, i)]),
    decreases s.len() - i,
{
    if 0 <= i < s.len() && is_space(s[i]) {
        lemma_ws_end(s, i + 1);
    }
}

pub proof fn lemma_word_end(s: Seq<char>, i: int)
    requires
        0 <= i <= s.len(),
    ensures
        i <= word_end(s, i) <= s.len(),
        forall|k: int| i <= k < word_end(s, i) ==> is_word(s[k]),
        word_end(s, i) < s.len() ==> !is_word(s[word_end(s, i)]),
    decreases s.len() - i,
{
    if 0 <= i < s.len() && is_word(s[i]) {
        lemma_word_end(s, i + 1);
    }
}

pub proof fn lemma_digits_end(s: Seq<char>, i: int)
    requires
        0 <= i <= s.len(),
    ensures
        i <= digits_end(s, i) <= s.len(),
        forall|k: int| i <= k < digits_end(s, i) ==> is_digit(s[k]),
        digits_end(s, i) < s.len() ==> !is_digit(s[digits_end(s, i)]),
    decreases s.len() - i,
{
    if 0 <= i < s.len() && is_digit(s[i]) {
        lemma_digits_end(s, i + 1);
    }
}

pub fn ex_ws_end(t: &Vec<char>, i: usize) -> (r: usize)
    requires
        i <= t.len(),
    ensures
        r == ws_end(t@, i as int),
        i <= r <= t.len(),
{
    let mut j: usize = i;
    while j < t.len() && ex_is_space(t[j])
        invariant
            i <= j <= t.len(),
            ws_end(t@, i as int) == ws_end(t@, j as int),
        decreases t.len() - j,
    {
        j += 1;
    }
    j
}

pub fn ex_word_end(t: &Vec<char>, i: usize) -> (r: usize)
    requires
        i <= t.len(),
    ensures
        r == word_end(t@, i as int),
        i <= r <= t.len(),
{
    let mut j: usize = i;
    while j < t.len() && ex_is_word(t[j])
        invariant
            i <= j <= t.len(),
            word_end(t@, i as int) == word_end(t@, j as int),
        decreases t.len() - j,
    {
        j += 1;
    }
    j
}

pub fn ex_digits_end(t: &Vec<char>, i: usize) -> (r: usize)
    requires
        i <= t.len(),
    ensures
        r == digits_end(t@, i as int),
        i <= r <= t.len(),
{
    let mut j: usize = i;
    while j < t.len() && ex_is_digit(t[j])
        invariant
            i <= j <= t.len(),
            digits_end(t@, i as int) == digits_end(t@, j as int),
        decreases t.len() - j,
    {
        j += 1;
    }
    j
}

// ---------------------------------------------------------------------------
// Trimming
// ---------------------------------------------------------------------------

/// Start of the trailing run of whitespace ending at `i` (scanning left).
pub open spec fn ws_start_rev(s: Seq<char>, i: int) -> int
    decreases i,
{
    if 0 < i <= s.len() && is_space(s[i - 1]) {
        ws_start_rev(s, i - 1)
    } else {
        i
    }
}

pub proof fn lemma_ws_start_rev(s: Seq<char>, i: int)
    requires
        0 <= i <= s.len(),
    ensures
        0 <= ws_start_rev(s, i) <= i,
        forall|k: int| ws_start_rev(s, i) <= k < i ==> is_space(s[k]),
        ws_start_rev(s, i) > 0 ==> !is_space(s[ws_start_rev(s, i) - 1]),
    decreases i,
{
    if 0 < i <= s.len() && is_space(s[i - 1]) {
        lemma_ws_start_rev(s, i - 1);
    }
}

/// The string with leading and trailing whitespace removed.
pub open spec fn spec_trim(s: Seq<char>) -> Seq<char> {
    let a = ws_end(s, 0);
    if a == s.len() {
        Seq::empty()
    } else {
        s.subrange(a, ws_start_rev(s, s.len() as int))
    }
}

pub proof fn lemma_trim_bounds(s: Seq<char>)
    ensures
        ws_end(s, 0) < s.len() ==> ws_end(s, 0) < ws_start_rev(s, s.len() as int) <= s.len(),
{
    lemma_ws_end(s, 0);
    lemma_ws_start_rev(s, s.len() as int);
    let a = ws_end(s, 0);
    let b = ws_start_rev(s, s.len() as int);
    if a < s.len() && b <= a {
        assert(is_space(s[a]));
    }
}

/// Bounds of the trimmed substring of `t[lo..hi]`, as absolute positions.
pub fn trim_range(t: &Vec<char>, lo: usize, hi: usize) -> (r: (usize, usize))
    requires
        lo <= hi <= t.len(),
    ensures
        lo <= r.0 <= r.1 <= hi,
        t@.subrange(r.0 as int, r.1 as int) == spec_trim(t@.subrange(lo as int, hi as int)),
{
    let ghost s = t@.subrange(lo as int, hi as int);
    let mut a: usize = lo;
    while a < hi && ex_is_space(t[a])
        invariant
            lo <= a <= hi <= t.len(),
            s == t@.subrange(lo as int, hi as int),
            ws_end(s, 0) == ws_end(s, a - lo),
        decreases hi - a,
    {
        proof {
            assert(s[a - lo] == t@[a as int]);
            assert(ws_end(s, a - lo) == ws_end(s, a - lo + 1));
        }
        a += 1;
    }
    if a == hi {
        proof {
            assert(ws_end(s, a - lo) == a - lo);
            assert(spec_trim(s) == Seq::<char>::empty());
            assert(t@.subrange(a as int, a as int) =~= Seq::<char>::empty());
        }
        return (a, a);
    }
    proof {
        assert(s[a - lo] == t@[a as int]);
        assert(!is_space(s[a - lo]));
        assert(ws_end(s, a - lo) == a - lo);
    }
    let mut b: usize = hi;
    while b > a && ex_is_space(t[b - 1])
        invariant
            lo <= a < b <= hi <= t.len(),
            s == t@.subrange(lo as int, hi as int),
            !is_space(s[a - lo]),
            ws_start_rev(s, (hi - lo) as int) == ws_start_rev(s, (b - lo) as int),
        decreases b,
    {
        proof {
            assert(s[b - 1 - lo] == t@[b - 1]);
            assert(ws_start_rev(s, (b - lo) as int) == ws_start_rev(s, (b - lo) as int - 1));
            if b - 1 == a {
                assert(false);
            }
        }
        b -= 1;
    }
    proof {
        assert(s[b - 1 - lo] == t@[b - 1]);
        assert(!is_space(s[b - 1 - lo]));
        assert(ws_start_rev(s, (b - lo) as int) == b - lo);
        assert(t@.subrange(a as int, b as int) =~= s.subrange(a - lo, b - lo));
    }
    (a, b)
}

// ---------------------------------------------------------------------------
// UTF-8 byte lengths
// ---------------------------------------------------------------------------

/// Byte length of the UTF-8 encoding of a character sequence.
pub open spec fn blen(s: Seq<char>) -> nat {
    encode_utf8(s).len()
}

pub proof fn lemma_encode_concat(a: Seq<char>, b: Seq<char>)
    ensures
        encode_utf8(a + b) == encode_utf8(a) + encode_utf8(b),
    decreases a.len(),
{
    if a.len() == 0 {
        assert(a + b =~= b);
        assert(encode_utf8(a) =~= Seq::<u8>::empty());
        assert(encode_utf8(a) + encode_utf8(b) =~= encode_utf8(b));
    } else {
        lemma_encode_concat(a.drop_first(), b);
        assert((a + b).drop_first() =~= a.drop_first() + b);
        assert(encode_utf8(a + b) =~= encode_utf8(a) + encode_utf8(b));
    }
}

pub proof fn lemma_scalar_width(c: char)
    ensures
        1 <= encode_scalar(c as u32).len() <= 4,
{
}

/// A contiguous part of a string never has more bytes than the whole.
pub proof fn lemma_blen_subrange(s: Seq<char>, i: int, j: int)
    requires
        0 <= i <= j <= s.len(),
    ensures
        blen(s.subrange(i, j)) <= blen(s),
{
    let pre = s.subrange(0, i);
    let mid = s.subrange(i, j);
    let post = s.subrange(j, s.len() as int);
    assert(s =~= pre + mid + post);
    lemma_encode_concat(pre + mid, post);
    lemma_encode_concat(pre, mid);
}

fn char_width(c: char) -> (w: usize)
    ensures
        w == encode_scalar(c as u32).len(),
{
    let u = c as u32;
    if u < 0x80 {
        1
    } else if u < 0x800 {
        2
    } else if u < 0x10000 {
        3
    } else {
        4
    }
}

// ---------------------------------------------------------------------------
// Conversion from `&str`
// ---------------------------------------------------------------------------

/// The characters of a string slice, as a vector.
pub fn chars_of(s: &str) -> (v: Vec<char>)
    ensures
        v@ == s@,
{
    let n = s.unicode_len();
    let mut v: Vec<char> = Vec::new();
    let mut i: usize = 0;
    while i < n
        invariant
            n == s@.len(),
            i <= n,
            v@ == s@.take(i as int),
        decreases n - i,
    {
        let c = s.get_char(i);
        v.push(c);
        proof {
            assert(s@.take(i + 1) =~= s@.take(i as int).push(s@[i as int]));
        }
        i += 1;
    }
    proof {
        assert(s@.take(n as int) =~= s@);
    }
    v
}

// ---------------------------------------------------------------------------
// Truncation
// ---------------------------------------------------------------------------

/// Number of leading characters whose UTF-8 encodings fit within `budget`
/// bytes.
pub open spec fn prefix_fit(s: Seq<char>, budget: int) -> int
    decreases s.len(),
{
    if s.len() == 0 {
        0
    } else if encode_scalar(s[0] as u32).len() <= budget {
        1 + prefix_fit(s.drop_first(), budget - encode_scalar(s[0] as u32).len())
    } else {
        0
    }
}

pub proof fn lemma_prefix_fit_bounds(s: Seq<char>, budget: int)
    ensures
        0 <= prefix_fit(s, budget) <= s.len(),
    decreases s.len(),
{
    if s.len() > 0 && encode_scalar(s[0] as u32).len() <= budget {
        lemma_prefix_fit_bounds(s.drop_first(), budget - encode_scalar(s[0] as u32).len());
    }
}

proof fn lemma_prefix_fit_zero(s: Seq<char>, budget: int)
    requires
        s.len() > 0,
        encode_scalar(s[0] as u32).len() > budget,
    ensures
        prefix_fit(s, budget) == 0,
{
}

proof fn lemma_prefix_fit_step(s: Seq<char>, budget: int)
    requires
        s.len() > 0,
        encode_scalar(s[0] as u32).len() <= budget,
    ensures
        prefix_fit(s, budget) == 1 + prefix_fit(
            s.drop_first(),
            budget - encode_scalar(s[0] as u32).len(),
        ),
{
}

/// Byte length of a one-character string.
pub proof fn lemma_blen_one(c: char)
    ensures
        blen(seq![c]) == encode_scalar(c as u32).len(),
{
    let s = seq![c];
    assert(s.drop_first() =~= Seq::<char>::empty());
    assert(encode_utf8(s) == encode_scalar(s[0] as u32) + encode_utf8(s.drop_first()));
    assert(encode_utf8(Seq::<char>::empty()) == Seq::<u8>::empty());
    assert(encode_utf8(s) =~= encode_scalar(c as u32));
}

/// Appending one character adds that character's encoding length.
pub proof fn lemma_blen_push(s: Seq<char>, c: char)
    ensures
        blen(s.push(c)) == blen(s) + encode_scalar(c as u32).len(),
{
    assert(s.push(c) =~= s + seq![c]);
    lemma_encode_concat(s, seq![c]);
    lemma_blen_one(c);
}

/// A string cut down to at most `max_len` UTF-8 bytes.  A string that
/// already fits is returned unchanged; otherwise the longest character
/// prefix of at most `max_len - 3` bytes is kept and an ellipsis appended.
pub open spec fn spec_truncate(s: Seq<char>, max_len: int) -> Seq<char> {
    if blen(s) <= max_len {
        s
    } else {
        let budget = if max_len >= 3 {
            max_len - 3
        } else {
            0
        };
        s.take(prefix_fit(s, budget)) + seq!['.', '.', '.']
    }
}

/// Truncation never adds more than the three ellipsis bytes.
pub proof fn lemma_truncate_blen(s: Seq<char>, max_len: int)
    ensures
        blen(spec_truncate(s, max_len)) <= blen(s) + 3,
{
    if blen(s) <= max_len {
    } else {
        let budget = if max_len >= 3 {
            max_len - 3
        } else {
            0
        };
        let fit = prefix_fit(s, budget);
        lemma_prefix_fit_bounds(s, budget);
        lemma_encode_concat(s.take(fit), seq!['.', '.', '.']);
        lemma_blen_one('.');
        assert(seq!['.', '.', '.'] =~= seq!['.'] + (seq!['.'] + seq!['.']));
        lemma_encode_concat(seq!['.'], seq!['.'] + seq!['.']);
        lemma_encode_concat(seq!['.'], seq!['.']);
        assert(seq!['.'] =~= seq!['.']);
        assert(blen(seq!['.', '.', '.']) == 3) by {
            assert(encode_scalar('.' as u32).len() == 1);
        }
        lemma_blen_subrange(s, 0, fit);
        assert(s.take(fit) =~= s.subrange(0, fit));
    }
}

/// Cut `s` down to at most `max_len` bytes, never splitting a multi-byte
/// character, appending `...` when anything was removed.
///
/// The bound on the byte length is a machine limit: every string held in
/// memory satisfies it.
pub fn truncate(s: &str, max_len: usize) -> (r: String)
    requires
        blen(s@) <= usize::MAX,
    ensures
        r@ == spec_truncate(s@, max_len as int),
{
    let bl: usize = s.len();
    proof {
        assert(bl == blen(s@));
    }
    if bl <= max_len {
        return s.to_owned();
    }
    let cut: usize = if max_len >= 3 {
        max_len - 3
    } else {
        0
    };
    let n: usize = s.unicode_len();
    let mut i: usize = 0;
    let mut acc: usize = 0;
    proof {
        assert(s@.skip(0) =~= s@);
        assert(s@.take(0) =~= Seq::<char>::empty());
    }
    loop
        invariant
            n == s@.len(),
            i <= n,
            acc <= cut,
            blen(s@.take(i as int)) == acc,
            prefix_fit(s@, cut as int) == i + prefix_fit(s@.skip(i as int), cut as int - acc),
        ensures
            i <= n,
            prefix_fit(s@, cut as int) == i as int,
        decreases n - i,
    {
        if i >= n {
            proof {
                assert(s@.skip(i as int) =~= Seq::<char>::empty());
                assert(prefix_fit(s@.skip(i as int), cut as int - acc) == 0);
            }
            break;
        }
        let c = s.get_char(i);
        let w: usize = char_width(c);
        if w > cut - acc {
            proof {
                let sk = s@.skip(i as int);
                assert(sk.len() == n - i);
                assert(sk[0] == s@[i as int]);
                assert(c == s@[i as int]);
                assert(w == encode_scalar(c as u32).len());
                assert(encode_scalar(sk[0] as u32).len() == w);
                assert(w > cut as int - acc);
                lemma_prefix_fit_zero(sk, cut as int - acc);
            }
            break;
        }
        proof {
            let sk = s@.skip(i as int);
            assert(sk.len() == n - i);
            assert(sk[0] == s@[i as int]);
            assert(c == s@[i as int]);
            assert(encode_scalar(sk[0] as u32).len() == w);
            lemma_prefix_fit_step(sk, cut as int - acc);
            assert(sk.drop_first() =~= s@.skip(i + 1));
            assert(s@.take(i + 1) =~= s@.take(i as int).push(s@[i as int]));
            lemma_blen_push(s@.take(i as int), s@[i as int]);
            assert(blen(s@.take(i + 1)) == acc + w);
        }
        acc = acc + w;
        i += 1;
    }
    let mut r = s.substring_char(0, i).to_owned();
    r.append("...");
    proof {
        reveal_strlit("...");
        assert("..."@ =~= seq!['.', '.', '.']);
        assert(r@ =~= s@.take(prefix_fit(s@, cut as int)) + seq!['.', '.', '.']);
    }
    r
}

} // verus!
