//! Renderers: pure functions from a record to one of the output encodings,
//! plus the decimal formatter and the comma-escaping rule of the compact
//! form.

use vstd::prelude::*;
use vstd::string::{StrSliceExecFns, StringExecFns};

use crate::category::{lemma_name_len, spec_name};
use crate::lines::{ex_nl_end, nl_end, sub_vec};
use crate::record::{ToonifiedError, MAX_TEXT_BYTES};
use crate::text::{
    blen, chars_of, ex_is_digit, ex_is_lower, ex_is_word, ex_word_end, ex_ws_end, is_digit,
    is_lower, is_word, lemma_blen_one, lemma_blen_subrange, lemma_encode_concat,
    occ, occ_at, spec_trim, trim_range, word_end, ws_end,
};

verus! {

// ---------------------------------------------------------------------------
// Decimal rendering
// ---------------------------------------------------------------------------

/// The decimal digit character for one digit value.
pub open spec fn dec_digit(d: int) -> char {
    if d == 0 {
        '0'
    } else if d == 1 {
        '1'
    } else if d == 2 {
        '2'
    } else if d == 3 {
        '3'
    } else if d == 4 {
        '4'
    } else if d == 5 {
        '5'
    } else if d == 6 {
        '6'
    } else if d == 7 {
        '7'
    } else if d == 8 {
        '8'
    } else {
        '9'
    }
}

/// The decimal rendering of a non-negative number.
pub open spec fn spec_dec(n: int) -> Seq<char>
    decreases n,
{
    if n < 10 {
        seq![dec_digit(n)]
    } else {
        spec_dec(n / 10) + seq![dec_digit(n % 10)]
    }
}

fn digit_str(d: usize) -> (r: &'static str)
    requires
        d < 10,
    ensures
        r@ == seq![dec_digit(d as int)],
{
    if d == 0 {
        proof {
            reveal_strlit("0");
            assert("0"@ =~= seq![dec_digit(0)]);
        }
        "0"
    } else if d == 1 {
        proof {
            reveal_strlit("1");
            assert("1"@ =~= seq![dec_digit(1)]);
        }
        "1"
    } else if d == 2 {
        proof {
            reveal_strlit("2");
            assert("2"@ =~= seq![dec_digit(2)]);
        }
        "2"
    } else if d == 3 {
        proof {
            reveal_strlit("3");
            assert("3"@ =~= seq![dec_digit(3)]);
        }
        "3"
    } else if d == 4 {
        proof {
            reveal_strlit("4");
            assert("4"@ =~= seq![dec_digit(4)]);
        }
        "4"
    } else if d == 5 {
        proof {
            reveal_strlit("5");
            assert("5"@ =~= seq![dec_digit(5)]);
        }
        "5"
    } else if d == 6 {
        proof {
            reveal_strlit("6");
            assert("6"@ =~= seq![dec_digit(6)]);
        }
        "6"
    } else if d == 7 {
        proof {
            reveal_strlit("7");
            assert("7"@ =~= seq![dec_digit(7)]);
        }
        "7"
    } else if d == 8 {
        proof {
            reveal_strlit("8");
            assert("8"@ =~= seq![dec_digit(8)]);
        }
        "8"
    } else {
        proof {
            reveal_strlit("9");
            assert("9"@ =~= seq![dec_digit(9)]);
        }
        "9"
    }
}

/// Render a number in decimal.
pub fn usize_dec(n: usize) -> (r: String)
    ensures
        r@ == spec_dec(n as int),
    decreases n,
{
    if n < 10 {
        digit_str(n).to_owned()
    } else {
        let mut s = usize_dec(n / 10);
        s.append(digit_str(n % 10));
        proof {
            assert(s@ =~= spec_dec(n as int));
        }
        s
    }
}

// ---------------------------------------------------------------------------
// Comma escaping for the compact form
// ---------------------------------------------------------------------------

/// The issue text with every comma preceded by a backslash; commas separate
/// fields in the compact form.
pub open spec fn spec_escape(s: Seq<char>) -> Seq<char>
    decreases s.len(),
{
    if s.len() == 0 {
        Seq::empty()
    } else if s[0] == ',' {
        seq!['\\', ','] + spec_escape(s.drop_first())
    } else {
        seq![s[0]] + spec_escape(s.drop_first())
    }
}

/// Escaping at most doubles the byte length.
pub proof fn lemma_escape_blen(s: Seq<char>)
    ensures
        blen(spec_escape(s)) <= 2 * blen(s),
    decreases s.len(),
{
    if s.len() == 0 {
    } else {
        lemma_escape_blen(s.drop_first());
        assert(s =~= seq![s[0]] + s.drop_first());
        lemma_encode_concat(seq![s[0]], s.drop_first());
        lemma_blen_one(s[0]);
        if s[0] == ',' {
            lemma_encode_concat(seq!['\\', ','], spec_escape(s.drop_first()));
            assert(seq!['\\', ','] =~= seq!['\\'] + seq![',']);
            lemma_encode_concat(seq!['\\'], seq![',']);
            lemma_blen_one('\\');
            lemma_blen_one(',');
        } else {
            lemma_encode_concat(seq![s[0]], spec_escape(s.drop_first()));
        }
    }
}

/// Escape each comma with a backslash.
pub fn escape_commas(s: &str) -> (r: String)
    ensures
        r@ == spec_escape(s@),
{
    let n = s.unicode_len();
    let mut r = String::new();
    let mut i: usize = 0;
    proof {
        assert(s@.skip(0) =~= s@);
    }
    while i < n
        invariant
            n == s@.len(),
            i <= n,
            r@ + spec_escape(s@.skip(i as int)) == spec_escape(s@),
        decreases n - i,
    {
        let c = s.get_char(i);
        proof {
            let sk = s@.skip(i as int);
            assert(sk[0] == s@[i as int]);
            assert(sk.drop_first() =~= s@.skip(i + 1));
        }
        if c == ',' {
            r.append("\\,");
            proof {
                reveal_strlit("\\,");
                assert("\\,"@ =~= seq!['\\', ',']);
                assert(r@ + spec_escape(s@.skip(i + 1)) =~= spec_escape(s@));
            }
        } else {
            r.append(s.substring_char(i, i + 1));
            proof {
                assert(s@.subrange(i as int, i + 1) =~= seq![s@[i as int]]);
                assert(r@ + spec_escape(s@.skip(i + 1)) =~= spec_escape(s@));
            }
        }
        i += 1;
    }
    proof {
        assert(s@.skip(n as int) =~= Seq::<char>::empty());
        assert(r@ =~= spec_escape(s@));
    }
    r
}

// ---------------------------------------------------------------------------
// Byte-length bounds
// ---------------------------------------------------------------------------

/// No character encodes to more than four bytes.
pub proof fn lemma_blen_le4(s: Seq<char>)
    ensures
        blen(s) <= 4 * s.len(),
    decreases s.len(),
{
    if s.len() > 0 {
        lemma_blen_le4(s.drop_first());
        crate::text::lemma_scalar_width(s[0]);
    }
}

// ---------------------------------------------------------------------------
// Plain rendering
// ---------------------------------------------------------------------------

/// The frame block lines from index `k` on: each frame on its own indented
/// line.
pub open spec fn frame_lines(fs: Seq<String>, k: int) -> Seq<char>
    decreases fs.len() - k,
{
    if k < 0 || k >= fs.len() {
        Seq::empty()
    } else {
        "\n  "@ + fs[k]@ + frame_lines(fs, k + 1)
    }
}

proof fn lemma_frame_lines_blen(fs: Seq<String>, k: int, bound: int)
    requires
        0 <= k <= fs.len(),
        forall|m: int| 0 <= m < fs.len() ==> blen((#[trigger] fs[m])@) <= bound,
        bound >= 0,
    ensures
        blen(frame_lines(fs, k)) <= (fs.len() - k) * (bound + 12),
    decreases fs.len() - k,
{
    if k < fs.len() {
        lemma_frame_lines_blen(fs, k + 1, bound);
        lemma_encode_concat("\n  "@ + fs[k]@, frame_lines(fs, k + 1));
        lemma_encode_concat("\n  "@, fs[k]@);
        reveal_strlit("\n  ");
        lemma_blen_le4("\n  "@);
        assert((fs.len() - k) * (bound + 12) == (bound + 12) + (fs.len() - k - 1) * (bound + 12))
            by (nonlinear_arith);
    }
}

/// The record's body in the plain form: `type:`, optional `file:`, optional
/// `issue:`, and the frame block.
pub open spec fn plain_body(rec: ToonifiedError) -> Seq<char> {
    "type: "@ + spec_name(rec.error_type) + (match rec.file_location {
        Some(f) => "\nfile: "@ + f@,
        None => Seq::<char>::empty(),
    }) + (match rec.issue {
        Some(s) => "\nissue: "@ + s@,
        None => Seq::<char>::empty(),
    }) + (if rec.frames@.len() > 0 {
        "\nframes:"@ + frame_lines(rec.frames@, 0)
    } else {
        Seq::<char>::empty()
    })
}

/// The reported compressed size: the body's byte length plus a fixed
/// allowance for the statistics line itself.
pub open spec fn spec_plain_comp(rec: ToonifiedError) -> int {
    blen(plain_body(rec)) as int + 40
}

/// Percentage saved, truncating, clamped to zero when nothing was saved.
pub open spec fn spec_savings(orig: int, comp: int) -> int {
    if orig > comp {
        (orig - comp) * 100 / orig
    } else {
        0
    }
}

/// The full plain rendering: the body, a blank line, a separator, and the
/// compression statistics.
pub open spec fn spec_format_plain(rec: ToonifiedError) -> Seq<char> {
    let body = plain_body(rec);
    let comp = spec_plain_comp(rec);
    body + "\n\n---\ncompressed: "@ + spec_dec(rec.original_len as int) + "c \u{2192} "@ + spec_dec(
        comp,
    ) + "c ("@ + spec_dec(spec_savings(rec.original_len as int, comp)) + "% saved)"@
}

/// The plain body stays far below the machine word in bytes.
proof fn lemma_plain_body_blen(rec: ToonifiedError)
    requires
        rec.wf(),
    ensures
        blen(plain_body(rec)) + 40 <= usize::MAX,
{
    let name = spec_name(rec.error_type);
    let filep = (match rec.file_location {
        Some(f) => "\nfile: "@ + f@,
        None => Seq::<char>::empty(),
    });
    let issuep = (match rec.issue {
        Some(s) => "\nissue: "@ + s@,
        None => Seq::<char>::empty(),
    });
    let framesp = (if rec.frames@.len() > 0 {
        "\nframes:"@ + frame_lines(rec.frames@, 0)
    } else {
        Seq::<char>::empty()
    });
    lemma_name_len(rec.error_type);
    lemma_blen_le4(name);
    reveal_strlit("type: ");
    reveal_strlit("\nfile: ");
    reveal_strlit("\nissue: ");
    reveal_strlit("\nframes:");
    lemma_blen_le4("type: "@);
    lemma_blen_le4("\nfile: "@);
    lemma_blen_le4("\nissue: "@);
    lemma_blen_le4("\nframes:"@);
    lemma_encode_concat("type: "@, name);
    lemma_encode_concat("type: "@ + name, filep);
    lemma_encode_concat("type: "@ + name + filep, issuep);
    lemma_encode_concat("type: "@ + name + filep + issuep, framesp);
    match rec.file_location {
        Some(f) => {
            lemma_encode_concat("\nfile: "@, f@);
        },
        None => {
            assert(blen(filep) == 0);
        },
    }
    match rec.issue {
        Some(s) => {
            lemma_encode_concat("\nissue: "@, s@);
        },
        None => {
            assert(blen(issuep) == 0);
        },
    }
    if rec.frames@.len() > 0 {
        lemma_encode_concat("\nframes:"@, frame_lines(rec.frames@, 0));
        lemma_frame_lines_blen(rec.frames@, 0, MAX_TEXT_BYTES as int + 3);
    } else {
        assert(blen(framesp) == 0);
    }
    assert(blen(plain_body(rec)) <= 200 + 5 * (MAX_TEXT_BYTES as int) + 60);
    assert(256 * (usize::MAX as int / 256) <= usize::MAX as int);
    assert(usize::MAX / 256 >= 1000);
}

impl ToonifiedError {
    /// Render the line-oriented plain form: `type:`, optional `file:` and
    /// `issue:` lines, the frame block, then a separator and the
    /// compression statistics.
    #[verifier::loop_isolation(false)]
    pub fn format_plain(&self) -> (r: String)
        requires
            self.wf(),
        ensures
            r@ == spec_format_plain(*self),
    {
        let mut body = String::new();
        body.append("type: ");
        body.append(self.error_type.name());
        match &self.file_location {
            Some(loc) => {
                body.append("\nfile: ");
                body.append(loc.as_str());
            },
            None => {},
        }
        match &self.issue {
            Some(issue) => {
                body.append("\nissue: ");
                body.append(issue.as_str());
            },
            None => {},
        }
        let ghost pre = body@;
        if self.frames.len() > 0 {
            body.append("\nframes:");
            let ghost base = body@;
            let mut k: usize = 0;
            while k < self.frames.len()
                invariant
                    k <= self.frames@.len(),
                    base == pre + "\nframes:"@,
                    body@ + frame_lines(self.frames@, k as int) == base + frame_lines(
                        self.frames@,
                        0,
                    ),
                decreases self.frames@.len() - k,
            {
                body.append("\n  ");
                body.append(self.frames[k].as_str());
                proof {
                    assert(body@ + frame_lines(self.frames@, k + 1) =~= base + frame_lines(
                        self.frames@,
                        0,
                    ));
                }
                k += 1;
            }
            proof {
                assert(frame_lines(self.frames@, self.frames@.len() as int)
                    =~= Seq::<char>::empty());
                assert(body@ =~= base + frame_lines(self.frames@, 0));
            }
        }
        proof {
            assert(body@ =~= plain_body(*self));
            lemma_plain_body_blen(*self);
        }
        let bl: usize = body.as_str().len();
        let comp: usize = bl + 40;
        let orig: usize = self.original_len;
        let savings: usize = if orig > comp {
            ((orig - comp) * 100) / orig
        } else {
            0
        };
        let mut out = body;
        out.append("\n\n---\ncompressed: ");
        out.append(usize_dec(orig).as_str());
        out.append("c \u{2192} ");
        out.append(usize_dec(comp).as_str());
        out.append("c (");
        out.append(usize_dec(savings).as_str());
        out.append("% saved)");
        proof {
            assert(out@ =~= spec_format_plain(*self));
        }
        out
    }
}


// ---------------------------------------------------------------------------
// Call-site frame parsing
// ---------------------------------------------------------------------------

/// End of the run of characters other than a closing parenthesis.
pub open spec fn nonparen_end(s: Seq<char>, i: int) -> int
    decreases s.len() - i,
{
    if 0 <= i < s.len() && s[i] != ')' {
        nonparen_end(s, i + 1)
    } else {
        i
    }
}

fn ex_nonparen_end(t: &Vec<char>, i: usize) -> (r: usize)
    requires
        i <= t.len(),
    ensures
        r == nonparen_end(t@, i as int),
        i <= r <= t.len(),
{
    let mut j: usize = i;
    while j < t.len() && t[j] != ')'
        invariant
            i <= j <= t.len(),
            nonparen_end(t@, i as int) == nonparen_end(t@, j as int),
        decreases t.len() - j,
    {
        j += 1;
    }
    j
}

/// Shape `at NAME (LOC)`: the marker, whitespace, a name, optional
/// whitespace, and a parenthesised location.
pub open spec fn pat1_at(l: Seq<char>, i: int) -> bool {
    let a = ws_end(l, i + "at"@.len());
    let b = word_end(l, a);
    let c = ws_end(l, b);
    let d = nonparen_end(l, c + 1);
    &&& occ(l, i, "at"@, false)
    &&& a > i + "at"@.len()
    &&& b > a
    &&& c < l.len() && l[c] == '('
    &&& d > c + 1
    &&& d < l.len() && l[d] == ')'
}

pub open spec fn pat1_func(l: Seq<char>, i: int) -> Seq<char> {
    let a = ws_end(l, i + "at"@.len());
    let b = word_end(l, a);
    l.subrange(a, b)
}

pub open spec fn pat1_loc(l: Seq<char>, i: int) -> Seq<char> {
    let a = ws_end(l, i + "at"@.len());
    let b = word_end(l, a);
    let c = ws_end(l, b);
    let d = nonparen_end(l, c + 1);
    l.subrange(c + 1, d)
}

pub open spec fn pat1_scan(l: Seq<char>, from: int) -> Option<int>
    decreases l.len() - from,
{
    if from < 0 || from >= l.len() {
        None
    } else if pat1_at(l, from) {
        Some(from)
    } else {
        pat1_scan(l, from + 1)
    }
}

/// Shape `@ NAME (LOC)`: the marker, optional whitespace, a name, optional
/// whitespace, and a parenthesised location.
pub open spec fn pat2_at(l: Seq<char>, i: int) -> bool {
    let a = ws_end(l, i + 1);
    let b = word_end(l, a);
    let c = ws_end(l, b);
    let d = nonparen_end(l, c + 1);
    &&& 0 <= i < l.len() && l[i] == '@'
    &&& b > a
    &&& c < l.len() && l[c] == '('
    &&& d > c + 1
    &&& d < l.len() && l[d] == ')'
}

pub open spec fn pat2_func(l: Seq<char>, i: int) -> Seq<char> {
    let a = ws_end(l, i + 1);
    let b = word_end(l, a);
    l.subrange(a, b)
}

pub open spec fn pat2_loc(l: Seq<char>, i: int) -> Seq<char> {
    let a = ws_end(l, i + 1);
    let b = word_end(l, a);
    let c = ws_end(l, b);
    let d = nonparen_end(l, c + 1);
    l.subrange(c + 1, d)
}

pub open spec fn pat2_scan(l: Seq<char>, from: int) -> Option<int>
    decreases l.len() - from,
{
    if from < 0 || from >= l.len() {
        None
    } else if pat2_at(l, from) {
        Some(from)
    } else {
        pat2_scan(l, from + 1)
    }
}

/// Shape `NAME @ LOC`: a name, optional whitespace, the marker, optional
/// whitespace, and the rest of the line.
pub open spec fn pat3_at(l: Seq<char>, i: int) -> bool {
    let b = word_end(l, i);
    let c = ws_end(l, b);
    let e = ws_end(l, c + 1);
    &&& 0 <= i < l.len() && is_word(l[i])
    &&& c < l.len() && l[c] == '@'
    &&& e < l.len() && l[e] != '\n'
}

pub open spec fn pat3_func(l: Seq<char>, i: int) -> Seq<char> {
    l.subrange(i, word_end(l, i))
}

pub open spec fn pat3_loc(l: Seq<char>, i: int) -> Seq<char> {
    let b = word_end(l, i);
    let c = ws_end(l, b);
    let e = ws_end(l, c + 1);
    l.subrange(e, nl_end(l, e))
}

pub open spec fn pat3_scan(l: Seq<char>, from: int) -> Option<int>
    decreases l.len() - from,
{
    if from < 0 || from >= l.len() {
        None
    } else if pat3_at(l, from) {
        Some(from)
    } else {
        pat3_scan(l, from + 1)
    }
}

// ---------------------------------------------------------------------------
// Location simplification
// ---------------------------------------------------------------------------

/// Start of the run of digits ending at `i` (scanning left).
pub open spec fn rev_digits_start(s: Seq<char>, i: int) -> int
    decreases i,
{
    if 0 < i <= s.len() && is_digit(s[i - 1]) {
        rev_digits_start(s, i - 1)
    } else {
        i
    }
}

/// Start of the run of lowercase letters ending at `i` (scanning left).
pub open spec fn rev_lower_start(s: Seq<char>, i: int) -> int
    decreases i,
{
    if 0 < i <= s.len() && is_lower(s[i - 1]) {
        rev_lower_start(s, i - 1)
    } else {
        i
    }
}

/// Position just after the last slash before `i`, or the start.
pub open spec fn rev_slash_cut(s: Seq<char>, i: int) -> int
    decreases i,
{
    if i <= 0 {
        0
    } else if 0 < i <= s.len() && s[i - 1] == '/' {
        i
    } else {
        rev_slash_cut(s, i - 1)
    }
}

fn ex_rev_digits_start(t: &Vec<char>, i: usize) -> (r: usize)
    requires
        i <= t.len(),
    ensures
        r == rev_digits_start(t@, i as int),
        r <= i,
{
    let mut j: usize = i;
    while j > 0 && ex_is_digit(t[j - 1])
        invariant
            j <= i <= t.len(),
            rev_digits_start(t@, i as int) == rev_digits_start(t@, j as int),
        decreases j,
    {
        j -= 1;
    }
    j
}

fn ex_rev_lower_start(t: &Vec<char>, i: usize) -> (r: usize)
    requires
        i <= t.len(),
    ensures
        r == rev_lower_start(t@, i as int),
        r <= i,
{
    let mut j: usize = i;
    while j > 0 && ex_is_lower(t[j - 1])
        invariant
            j <= i <= t.len(),
            rev_lower_start(t@, i as int) == rev_lower_start(t@, j as int),
        decreases j,
    {
        j -= 1;
    }
    j
}

fn ex_rev_slash_cut(t: &Vec<char>, i: usize) -> (r: usize)
    requires
        i <= t.len(),
    ensures
        r == rev_slash_cut(t@, i as int),
        r <= i,
{
    let mut j: usize = i;
    while j > 0 && t[j - 1] != '/'
        invariant
            j <= i <= t.len(),
            rev_slash_cut(t@, i as int) == rev_slash_cut(t@, j as int),
        decreases j,
    {
        j -= 1;
    }
    j
}

/// One simplification candidate: the location's file name ends with a dot,
/// a lowercase extension, and the colon at `colon`; the kept text runs from
/// just after the last slash to `endv`.
pub open spec fn simp_group(l: Seq<char>, colon: int, endv: int) -> Option<Seq<char>> {
    let ls = rev_lower_start(l, colon);
    let cut = rev_slash_cut(l, ls - 1);
    if ls < colon && ls > 0 && l[ls - 1] == '.' && cut < ls - 1 {
        Some(l.subrange(cut, endv))
    } else {
        None
    }
}

/// Strip scheme, host and path from a location, keeping only the trailing
/// `file.ext:line`; a trailing column number is dropped.  A location that
/// does not end in `file.ext:line[:column]` is returned unchanged (trimmed).
pub open spec fn spec_simplify(s: Seq<char>) -> Seq<char> {
    let l = spec_trim(s);
    let n = l.len() as int;
    let ds2 = rev_digits_start(l, n);
    if ds2 < n && ds2 > 0 && l[ds2 - 1] == ':' {
        let c2 = ds2 - 1;
        let ds1 = rev_digits_start(l, c2);
        let caseb = if ds1 < c2 && ds1 > 0 && l[ds1 - 1] == ':' {
            simp_group(l, ds1 - 1, c2)
        } else {
            None
        };
        match caseb {
            Some(r) => r,
            None => match simp_group(l, c2, n) {
                Some(r) => r,
                None => l,
            },
        }
    } else {
        l
    }
}

/// Reduce a call-site location to `file.ext:line` when it ends in a
/// recognizable file-and-line tail; otherwise return it unchanged.
#[verifier::loop_isolation(false)]
pub fn simplify_location(loc: &str) -> (r: String)
    ensures
        r@ == spec_simplify(loc@),
        blen(r@) <= blen(loc@),
{
    let tv = chars_of(loc);
    let tr = trim_range(&tv, 0, tv.len());
    let lo = tr.0;
    let hi = tr.1;
    proof {
        assert(tv@.subrange(0, tv@.len() as int) =~= tv@);
        lemma_blen_subrange(loc@, lo as int, hi as int);
    }
    let lv = sub_vec(&tv, lo, hi);
    let n: usize = lv.len();
    let ds2 = ex_rev_digits_start(&lv, n);
    if !(ds2 < n && ds2 > 0 && lv[ds2 - 1] == ':') {
        return loc.substring_char(lo, hi).to_owned();
    }
    let c2: usize = ds2 - 1;
    let ds1 = ex_rev_digits_start(&lv, c2);
    if ds1 < c2 && ds1 > 0 && lv[ds1 - 1] == ':' {
        let ls = ex_rev_lower_start(&lv, ds1 - 1);
        if ls < ds1 - 1 && ls > 0 && lv[ls - 1] == '.' {
            let cut = ex_rev_slash_cut(&lv, ls - 1);
            if cut < ls - 1 {
                proof {
                    assert(lv@.subrange(cut as int, c2 as int) =~= loc@.subrange(
                        lo + cut,
                        lo + c2,
                    ));
                    lemma_blen_subrange(loc@, lo + cut, lo + c2);
                }
                return loc.substring_char(lo + cut, lo + c2).to_owned();
            }
        }
    }
    let ls = ex_rev_lower_start(&lv, c2);
    if ls < c2 && ls > 0 && lv[ls - 1] == '.' {
        let cut = ex_rev_slash_cut(&lv, ls - 1);
        if cut < ls - 1 {
            proof {
                assert(lv@.subrange(cut as int, n as int) =~= loc@.subrange(lo + cut, hi as int));
                lemma_blen_subrange(loc@, lo + cut, hi as int);
            }
            return loc.substring_char(lo + cut, hi).to_owned();
        }
    }
    loc.substring_char(lo, hi).to_owned()
}

/// The parsed form of one stack frame: the function name and its
/// simplified location.  The frame is trimmed first; the three call-site
/// shapes are tried in a fixed order, and a frame matching none of them is
/// kept whole as the function field with an empty location.
pub open spec fn spec_parse_frame(s: Seq<char>) -> (Seq<char>, Seq<char>) {
    let l = spec_trim(s);
    match pat1_scan(l, 0) {
        Some(i) => (pat1_func(l, i), spec_simplify(pat1_loc(l, i))),
        None => match pat2_scan(l, 0) {
            Some(i) => (pat2_func(l, i), spec_simplify(pat2_loc(l, i))),
            None => match pat3_scan(l, 0) {
                Some(i) => (pat3_func(l, i), spec_simplify(pat3_loc(l, i))),
                None => (l, Seq::empty()),
            },
        },
    }
}

fn ex_pat1_caps(l: &Vec<char>, i: usize, at: &Vec<char>) -> (r: Option<(usize, usize, usize, usize)>)
    requires
        i < l.len(),
        at@ == "at"@,
    ensures
        match r {
            Some(c4) => pat1_at(l@, i as int) && c4.0 == ws_end(l@, i + "at"@.len()) && c4.1
                == word_end(l@, c4.0 as int) && c4.2 == ws_end(l@, c4.1 as int) && c4.3
                == nonparen_end(l@, c4.2 as int + 1) && i < c4.0 <= c4.1 <= c4.2 < c4.3 < l.len(),
            None => !pat1_at(l@, i as int),
        },
{
    if !occ_at(l, i, at, false) {
        return None;
    }
    let a = ex_ws_end(l, i + at.len());
    if a == i + at.len() {
        return None;
    }
    let b = ex_word_end(l, a);
    if b == a {
        return None;
    }
    let c = ex_ws_end(l, b);
    if c >= l.len() || l[c] != '(' {
        return None;
    }
    let d = ex_nonparen_end(l, c + 1);
    if d == c + 1 || d >= l.len() || l[d] != ')' {
        return None;
    }
    Some((a, b, c, d))
}

fn ex_pat2_caps(l: &Vec<char>, i: usize) -> (r: Option<(usize, usize, usize, usize)>)
    requires
        i < l.len(),
    ensures
        match r {
            Some(c4) => pat2_at(l@, i as int) && c4.0 == ws_end(l@, i + 1) && c4.1 == word_end(
                l@,
                c4.0 as int,
            ) && c4.2 == ws_end(l@, c4.1 as int) && c4.3 == nonparen_end(l@, c4.2 as int + 1) && i
                < c4.0 + 1 && c4.0 <= c4.1 <= c4.2 < c4.3 < l.len(),
            None => !pat2_at(l@, i as int),
        },
{
    if l[i] != '@' {
        return None;
    }
    let a = ex_ws_end(l, i + 1);
    let b = ex_word_end(l, a);
    if b == a {
        return None;
    }
    let c = ex_ws_end(l, b);
    if c >= l.len() || l[c] != '(' {
        return None;
    }
    let d = ex_nonparen_end(l, c + 1);
    if d == c + 1 || d >= l.len() || l[d] != ')' {
        return None;
    }
    Some((a, b, c, d))
}

fn ex_pat3_caps(l: &Vec<char>, i: usize) -> (r: Option<(usize, usize)>)
    requires
        i < l.len(),
    ensures
        match r {
            Some(c2) => pat3_at(l@, i as int) && c2.0 == word_end(l@, i as int) && c2.1 == ws_end(
                l@,
                ws_end(l@, c2.0 as int) + 1,
            ) && i < c2.0 && c2.1 < l.len(),
            None => !pat3_at(l@, i as int),
        },
{
    if !ex_is_word(l[i]) {
        return None;
    }
    let b = ex_word_end(l, i);
    let c = ex_ws_end(l, b);
    if c >= l.len() || l[c] != '@' {
        return None;
    }
    let e = ex_ws_end(l, c + 1);
    if e >= l.len() || l[e] == '\n' {
        return None;
    }
    Some((b, e))
}

/// Split one stack frame into its function name and simplified location.
/// A frame matching no known shape comes back whole, with an empty
/// location.
#[verifier::loop_isolation(false)]
pub fn parse_frame(frame: &str) -> (r: (String, String))
    ensures
        r.0@ == spec_parse_frame(frame@).0,
        r.1@ == spec_parse_frame(frame@).1,
        blen(r.0@) <= blen(frame@),
        blen(r.1@) <= blen(frame@),
{
    let tv = chars_of(frame);
    let tr = trim_range(&tv, 0, tv.len());
    let lo = tr.0;
    let hi = tr.1;
    proof {
        assert(tv@.subrange(0, tv@.len() as int) =~= tv@);
    }
    let lv = sub_vec(&tv, lo, hi);
    let at = chars_of("at");
    let mut i: usize = 0;
    while i < lv.len()
        invariant
            pat1_scan(lv@, 0) == pat1_scan(lv@, i as int),
        decreases lv.len() - i,
    {
        match ex_pat1_caps(&lv, i, &at) {
            Some(c4) => {
                proof {
                    assert(lv@.subrange(c4.0 as int, c4.1 as int) =~= frame@.subrange(
                        lo + c4.0,
                        lo + c4.1,
                    ));
                    lemma_blen_subrange(frame@, lo + c4.0, lo + c4.1);
                    assert(lv@.subrange(c4.2 as int + 1, c4.3 as int) =~= frame@.subrange(
                        lo + c4.2 + 1,
                        lo + c4.3,
                    ));
                    lemma_blen_subrange(frame@, lo + c4.2 + 1, lo + c4.3);
                }
                let func = frame.substring_char(lo + c4.0, lo + c4.1).to_owned();
                let locs = frame.substring_char(lo + c4.2 + 1, lo + c4.3);
                let loc = simplify_location(locs);
                return (func, loc);
            },
            None => {},
        }
        i += 1;
    }
    proof {
        assert(pat1_scan(lv@, lv@.len() as int) is None);
    }
    let mut i: usize = 0;
    while i < lv.len()
        invariant
            pat2_scan(lv@, 0) == pat2_scan(lv@, i as int),
        decreases lv.len() - i,
    {
        match ex_pat2_caps(&lv, i) {
            Some(c4) => {
                proof {
                    assert(lv@.subrange(c4.0 as int, c4.1 as int) =~= frame@.subrange(
                        lo + c4.0,
                        lo + c4.1,
                    ));
                    lemma_blen_subrange(frame@, lo + c4.0, lo + c4.1);
                    assert(lv@.subrange(c4.2 as int + 1, c4.3 as int) =~= frame@.subrange(
                        lo + c4.2 + 1,
                        lo + c4.3,
                    ));
                    lemma_blen_subrange(frame@, lo + c4.2 + 1, lo + c4.3);
                }
                let func = frame.substring_char(lo + c4.0, lo + c4.1).to_owned();
                let locs = frame.substring_char(lo + c4.2 + 1, lo + c4.3);
                let loc = simplify_location(locs);
                return (func, loc);
            },
            None => {},
        }
        i += 1;
    }
    proof {
        assert(pat2_scan(lv@, lv@.len() as int) is None);
    }
    let mut i: usize = 0;
    while i < lv.len()
        invariant
            pat3_scan(lv@, 0) == pat3_scan(lv@, i as int),
        decreases lv.len() - i,
    {
        match ex_pat3_caps(&lv, i) {
            Some(c2) => {
                let le = ex_nl_end(&lv, c2.1);
                proof {
                    assert(lv@.subrange(i as int, c2.0 as int) =~= frame@.subrange(
                        lo + i,
                        lo + c2.0,
                    ));
                    lemma_blen_subrange(frame@, lo + i, lo + c2.0);
                    assert(lv@.subrange(c2.1 as int, le as int) =~= frame@.subrange(
                        lo + c2.1,
                        lo + le,
                    ));
                    lemma_blen_subrange(frame@, lo + c2.1, lo + le);
                }
                let func = frame.substring_char(lo + i, lo + c2.0).to_owned();
                let locs = frame.substring_char(lo + c2.1, lo + le);
                let loc = simplify_location(locs);
                return (func, loc);
            },
            None => {},
        }
        i += 1;
    }
    proof {
        assert(pat3_scan(lv@, lv@.len() as int) is None);
        lemma_blen_subrange(frame@, lo as int, hi as int);
    }
    (frame.substring_char(lo, hi).to_owned(), String::new())
}


// ---------------------------------------------------------------------------
// Compact (tabular) rendering
// ---------------------------------------------------------------------------

/// The tabular frame rows from index `k` on: one `function,location` row
/// per frame.
pub open spec fn toon_frame_lines(fs: Seq<String>, k: int) -> Seq<char>
    decreases fs.len() - k,
{
    if k < 0 || k >= fs.len() {
        Seq::empty()
    } else {
        "\n  "@ + spec_parse_frame(fs[k]@).0 + ","@ + spec_parse_frame(fs[k]@).1
            + toon_frame_lines(fs, k + 1)
    }
}

/// The record's body in the compact form: commas in the issue escaped,
/// frames as a declared-length tabular block.
pub open spec fn toon_body(rec: ToonifiedError) -> Seq<char> {
    "type: "@ + spec_name(rec.error_type) + (match rec.file_location {
        Some(f) => "\nfile: "@ + f@,
        None => Seq::<char>::empty(),
    }) + (match rec.issue {
        Some(s) => "\nissue: "@ + spec_escape(s@),
        None => Seq::<char>::empty(),
    }) + (if rec.frames@.len() > 0 {
        "\nframes["@ + spec_dec(rec.frames@.len() as int) + "]{fn,loc}:"@ + toon_frame_lines(
            rec.frames@,
            0,
        )
    } else {
        Seq::<char>::empty()
    })
}

/// The reported compressed size of the compact form.
pub open spec fn spec_toon_comp(rec: ToonifiedError) -> int {
    blen(toon_body(rec)) as int + 30
}

/// The full compact rendering: the body and an inline statistics object,
/// with no separator line.
pub open spec fn spec_format_toon(rec: ToonifiedError) -> Seq<char> {
    let body = toon_body(rec);
    let comp = spec_toon_comp(rec);
    body + "\nstats{orig,comp,pct}: "@ + spec_dec(rec.original_len as int) + ","@ + spec_dec(comp)
        + ","@ + spec_dec(spec_savings(rec.original_len as int, comp))
}

// ---------------------------------------------------------------------------
// Size bounds for the compact form
// ---------------------------------------------------------------------------

proof fn lemma_rev_digits_start_bounds(s: Seq<char>, i: int)
    requires
        0 <= i <= s.len(),
    ensures
        0 <= rev_digits_start(s, i) <= i,
    decreases i,
{
    if 0 < i <= s.len() && is_digit(s[i - 1]) {
        lemma_rev_digits_start_bounds(s, i - 1);
    }
}

proof fn lemma_rev_lower_start_bounds(s: Seq<char>, i: int)
    requires
        0 <= i <= s.len(),
    ensures
        0 <= rev_lower_start(s, i) <= i,
    decreases i,
{
    if 0 < i <= s.len() && is_lower(s[i - 1]) {
        lemma_rev_lower_start_bounds(s, i - 1);
    }
}

proof fn lemma_rev_slash_cut_bounds(s: Seq<char>, i: int)
    requires
        i <= s.len(),
    ensures
        0 <= rev_slash_cut(s, i),
        i >= 0 ==> rev_slash_cut(s, i) <= i,
    decreases i,
{
    if i <= 0 {
    } else if 0 < i <= s.len() && s[i - 1] == '/' {
    } else {
        lemma_rev_slash_cut_bounds(s, i - 1);
    }
}

/// Trimming never grows a string's bytes.
pub proof fn lemma_trim_blen(s: Seq<char>)
    ensures
        blen(spec_trim(s)) <= blen(s),
{
    crate::text::lemma_ws_end(s, 0);
    crate::text::lemma_trim_bounds(s);
    let a = crate::text::ws_end(s, 0);
    if a == s.len() {
    } else {
        lemma_blen_subrange(s, a, crate::text::ws_start_rev(s, s.len() as int));
    }
}

/// Simplifying never grows a location's bytes.
pub proof fn lemma_simplify_blen(s: Seq<char>)
    ensures
        blen(spec_simplify(s)) <= blen(s),
{
    let l = spec_trim(s);
    let n = l.len() as int;
    lemma_trim_blen(s);
    let ds2 = rev_digits_start(l, n);
    lemma_rev_digits_start_bounds(l, n);
    if ds2 < n && ds2 > 0 && l[ds2 - 1] == ':' {
        let c2 = ds2 - 1;
        let ds1 = rev_digits_start(l, c2);
        lemma_rev_digits_start_bounds(l, c2);
        if ds1 < c2 && ds1 > 0 && l[ds1 - 1] == ':' {
            lemma_simp_group_blen(l, ds1 - 1, c2);
        }
        lemma_simp_group_blen(l, c2, n);
    }
}

proof fn lemma_simp_group_blen(l: Seq<char>, colon: int, endv: int)
    requires
        0 <= colon < endv <= l.len(),
    ensures
        simp_group(l, colon, endv) matches Some(r) ==> blen(r) <= blen(l),
{
    let ls = rev_lower_start(l, colon);
    lemma_rev_lower_start_bounds(l, colon);
    if ls < colon && ls > 0 && l[ls - 1] == '.' {
        lemma_rev_slash_cut_bounds(l, ls - 1);
        let cut = rev_slash_cut(l, ls - 1);
        if cut < ls - 1 {
            lemma_blen_subrange(l, cut, endv);
        }
    }
}

proof fn lemma_pat1_scan_at(l: Seq<char>, from: int)
    ensures
        pat1_scan(l, from) matches Some(i) ==> from <= i < l.len() && pat1_at(l, i),
    decreases l.len() - from,
{
    if from < 0 || from >= l.len() {
    } else if pat1_at(l, from) {
    } else {
        lemma_pat1_scan_at(l, from + 1);
    }
}

proof fn lemma_pat2_scan_at(l: Seq<char>, from: int)
    ensures
        pat2_scan(l, from) matches Some(i) ==> from <= i < l.len() && pat2_at(l, i),
    decreases l.len() - from,
{
    if from < 0 || from >= l.len() {
    } else if pat2_at(l, from) {
    } else {
        lemma_pat2_scan_at(l, from + 1);
    }
}

proof fn lemma_pat3_scan_at(l: Seq<char>, from: int)
    ensures
        pat3_scan(l, from) matches Some(i) ==> from <= i < l.len() && pat3_at(l, i),
    decreases l.len() - from,
{
    if from < 0 || from >= l.len() {
    } else if pat3_at(l, from) {
    } else {
        lemma_pat3_scan_at(l, from + 1);
    }
}

proof fn lemma_nonparen_end_bounds(s: Seq<char>, i: int)
    requires
        0 <= i <= s.len(),
    ensures
        i <= nonparen_end(s, i) <= s.len(),
    decreases s.len() - i,
{
    if 0 <= i < s.len() && s[i] != ')' {
        lemma_nonparen_end_bounds(s, i + 1);
    }
}

/// Parsing a frame never grows either field beyond the frame's own bytes.
pub proof fn lemma_parse_frame_blen(s: Seq<char>)
    ensures
        blen(spec_parse_frame(s).0) <= blen(s),
        blen(spec_parse_frame(s).1) <= blen(s),
{
    let l = spec_trim(s);
    lemma_trim_blen(s);
    lemma_pat1_scan_at(l, 0);
    lemma_pat2_scan_at(l, 0);
    lemma_pat3_scan_at(l, 0);
    match pat1_scan(l, 0) {
        Some(i) => {
            let a = ws_end(l, i + "at"@.len());
            crate::text::lemma_ws_end(l, i + "at"@.len());
            let b = word_end(l, a);
            crate::text::lemma_word_end(l, a);
            let c = ws_end(l, b);
            crate::text::lemma_ws_end(l, b);
            let d = nonparen_end(l, c + 1);
            lemma_nonparen_end_bounds(l, c + 1);
            lemma_blen_subrange(l, a, b);
            lemma_blen_subrange(l, c + 1, d);
            lemma_simplify_blen(pat1_loc(l, i));
        },
        None => match pat2_scan(l, 0) {
            Some(i) => {
                let a = ws_end(l, i + 1);
                crate::text::lemma_ws_end(l, i + 1);
                let b = word_end(l, a);
                crate::text::lemma_word_end(l, a);
                let c = ws_end(l, b);
                crate::text::lemma_ws_end(l, b);
                let d = nonparen_end(l, c + 1);
                lemma_nonparen_end_bounds(l, c + 1);
                lemma_blen_subrange(l, a, b);
                lemma_blen_subrange(l, c + 1, d);
                lemma_simplify_blen(pat2_loc(l, i));
            },
            None => match pat3_scan(l, 0) {
                Some(i) => {
                    let b = word_end(l, i);
                    crate::text::lemma_word_end(l, i);
                    let c = ws_end(l, b);
                    crate::text::lemma_ws_end(l, b);
                    let e = ws_end(l, c + 1);
                    crate::text::lemma_ws_end(l, c + 1);
                    crate::lines::lemma_nl_end(l, e);
                    lemma_blen_subrange(l, i, b);
                    lemma_blen_subrange(l, e, crate::lines::nl_end(l, e));
                    lemma_simplify_blen(pat3_loc(l, i));
                },
                None => {
                },
            },
        },
    }
}

proof fn lemma_toon_frame_lines_blen(fs: Seq<String>, k: int, bound: int)
    requires
        0 <= k <= fs.len(),
        forall|m: int| 0 <= m < fs.len() ==> blen((#[trigger] fs[m])@) <= bound,
        bound >= 0,
    ensures
        blen(toon_frame_lines(fs, k)) <= (fs.len() - k) * (2 * bound + 20),
    decreases fs.len() - k,
{
    if k < fs.len() {
        lemma_toon_frame_lines_blen(fs, k + 1, bound);
        let pf = spec_parse_frame(fs[k]@);
        lemma_parse_frame_blen(fs[k]@);
        lemma_encode_concat("\n  "@ + pf.0 + ","@ + pf.1, toon_frame_lines(fs, k + 1));
        lemma_encode_concat("\n  "@ + pf.0 + ","@, pf.1);
        lemma_encode_concat("\n  "@ + pf.0, ","@);
        lemma_encode_concat("\n  "@, pf.0);
        reveal_strlit("\n  ");
        reveal_strlit(",");
        lemma_blen_le4("\n  "@);
        lemma_blen_le4(","@);
        assert((fs.len() - k) * (2 * bound + 20) == (2 * bound + 20) + (fs.len() - k - 1) * (2
            * bound + 20)) by (nonlinear_arith);
    }
}

/// One decimal digit encodes to one byte.
proof fn lemma_dec_digit_blen(n: int)
    requires
        0 <= n < 10,
    ensures
        blen(spec_dec(n)) == 1,
{
    lemma_blen_one(dec_digit(n));
}

/// The compact body stays far below the machine word in bytes.
#[verifier::rlimit(80)]
proof fn lemma_toon_body_blen(rec: ToonifiedError)
    requires
        rec.wf(),
    ensures
        blen(toon_body(rec)) + 30 <= usize::MAX,
{
    let name = spec_name(rec.error_type);
    let filep = (match rec.file_location {
        Some(f) => "\nfile: "@ + f@,
        None => Seq::<char>::empty(),
    });
    let issuep = (match rec.issue {
        Some(s) => "\nissue: "@ + spec_escape(s@),
        None => Seq::<char>::empty(),
    });
    let framesp = (if rec.frames@.len() > 0 {
        "\nframes["@ + spec_dec(rec.frames@.len() as int) + "]{fn,loc}:"@ + toon_frame_lines(
            rec.frames@,
            0,
        )
    } else {
        Seq::<char>::empty()
    });
    lemma_name_len(rec.error_type);
    lemma_blen_le4(name);
    reveal_strlit("type: ");
    reveal_strlit("\nfile: ");
    reveal_strlit("\nissue: ");
    reveal_strlit("\nframes[");
    reveal_strlit("]{fn,loc}:");
    lemma_blen_le4("type: "@);
    lemma_blen_le4("\nfile: "@);
    lemma_blen_le4("\nissue: "@);
    lemma_blen_le4("\nframes["@);
    lemma_blen_le4("]{fn,loc}:"@);
    lemma_encode_concat("type: "@, name);
    lemma_encode_concat("type: "@ + name, filep);
    lemma_encode_concat("type: "@ + name + filep, issuep);
    lemma_encode_concat("type: "@ + name + filep + issuep, framesp);
    match rec.file_location {
        Some(f) => {
            lemma_encode_concat("\nfile: "@, f@);
        },
        None => {
            assert(blen(filep) == 0);
        },
    }
    match rec.issue {
        Some(s) => {
            lemma_encode_concat("\nissue: "@, spec_escape(s@));
            lemma_escape_blen(s@);
        },
        None => {
            assert(blen(issuep) == 0);
        },
    }
    if rec.frames@.len() > 0 {
        lemma_encode_concat(
            "\nframes["@ + spec_dec(rec.frames@.len() as int) + "]{fn,loc}:"@,
            toon_frame_lines(rec.frames@, 0),
        );
        lemma_encode_concat("\nframes["@ + spec_dec(rec.frames@.len() as int), "]{fn,loc}:"@);
        lemma_encode_concat("\nframes["@, spec_dec(rec.frames@.len() as int));
        lemma_dec_digit_blen(rec.frames@.len() as int);
        lemma_toon_frame_lines_blen(rec.frames@, 0, MAX_TEXT_BYTES as int + 3);
        assert(forall|x: int, c: int| 0 <= x <= 3 && c >= 0 ==> #[trigger] (x * c) <= 3 * c)
            by (nonlinear_arith);
        assert(blen(toon_frame_lines(rec.frames@, 0)) <= 3 * (2 * (MAX_TEXT_BYTES as int + 3)
            + 20));
    } else {
        assert(blen(framesp) == 0);
    }
    assert(blen(toon_body(rec)) <= 400 + 9 * (MAX_TEXT_BYTES as int));
    assert(256 * (usize::MAX as int / 256) <= usize::MAX as int);
    assert(usize::MAX / 256 >= 1000);
}

impl ToonifiedError {
    /// Render the compact tabular form: the same key fields, commas in the
    /// issue escaped, frames as `function,location` rows under a
    /// declared-length header, and an inline statistics object.
    #[verifier::loop_isolation(false)]
    #[verifier::rlimit(100)]
    pub fn format_toon(&self) -> (r: String)
        requires
            self.wf(),
        ensures
            r@ == spec_format_toon(*self),
    {
        let mut body = String::new();
        body.append("type: ");
        body.append(self.error_type.name());
        match &self.file_location {
            Some(loc) => {
                body.append("\nfile: ");
                body.append(loc.as_str());
            },
            None => {},
        }
        match &self.issue {
            Some(issue) => {
                body.append("\nissue: ");
                let escaped = escape_commas(issue.as_str());
                body.append(escaped.as_str());
            },
            None => {},
        }
        if self.frames.len() > 0 {
            body.append("\nframes[");
            let cnt = usize_dec(self.frames.len());
            body.append(cnt.as_str());
            body.append("]{fn,loc}:");
            let ghost base = body@;
            let mut k: usize = 0;
            while k < self.frames.len()
                invariant
                    k <= self.frames@.len(),
                    body@ + toon_frame_lines(self.frames@, k as int) == base + toon_frame_lines(
                        self.frames@,
                        0,
                    ),
                decreases self.frames@.len() - k,
            {
                let pf = parse_frame(self.frames[k].as_str());
                body.append("\n  ");
                body.append(pf.0.as_str());
                body.append(",");
                body.append(pf.1.as_str());
                proof {
                    assert(body@ + toon_frame_lines(self.frames@, k + 1) =~= base
                        + toon_frame_lines(self.frames@, 0));
                }
                k += 1;
            }
            proof {
                assert(toon_frame_lines(self.frames@, self.frames@.len() as int)
                    =~= Seq::<char>::empty());
                assert(body@ =~= base + toon_frame_lines(self.frames@, 0));
            }
        }
        proof {
            assert(body@ =~= toon_body(*self));
            lemma_toon_body_blen(*self);
        }
        let bl: usize = body.as_str().len();
        let comp: usize = bl + 30;
        let orig: usize = self.original_len;
        let savings: usize = if orig > comp {
            ((orig - comp) * 100) / orig
        } else {
            0
        };
        let mut out = body;
        out.append("\nstats{orig,comp,pct}: ");
        out.append(usize_dec(orig).as_str());
        out.append(",");
        out.append(usize_dec(comp).as_str());
        out.append(",");
        out.append(usize_dec(savings).as_str());
        proof {
            assert(out@ =~= spec_format_toon(*self));
        }
        out
    }
}

} // verus!
