//! Detection rules and the classifier.
//!
//! Each category owns one detection rule, stated as a spec-level predicate
//! over the input's characters and checked by a verified matcher.  The
//! classifier walks the rules in the fixed priority order of
//! [`crate::category::spec_order`] and returns the first category whose rule
//! matches, so the rule order — not any score — resolves every ambiguity.

use vstd::prelude::*;

use crate::category::{spec_order, ErrorType};
use crate::text::{
    chars_of, contains, contains_lit, digits_end, ex_digits_end, ex_is_digit, ex_is_space,
    ex_is_word, ex_non_space_end, ex_ws_end, is_digit, is_space, is_word, match_chain2,
    match_chain3, non_space_end, occ, occ_at, chain2, chain3, ws_end,
};

verus! {

// ---------------------------------------------------------------------------
// Simple rules: literal containment and newline-bounded chains
// ---------------------------------------------------------------------------

/// Markup-nesting warning.
pub open spec fn m_dom_nesting(t: Seq<char>) -> bool {
    contains_lit(t, "validateDOMNesting"@, true)
}

/// Server/client render mismatch.
pub open spec fn m_hydration(t: Seq<char>) -> bool {
    ||| chain2(t, "hydration"@, "failed"@, true)
    ||| chain2(t, "hydration"@, "mismatch"@, true)
    ||| chain2(t, "hydration"@, "error"@, true)
    ||| chain2(t, "hydrate"@, "failed"@, true)
    ||| chain2(t, "hydrate"@, "mismatch"@, true)
    ||| chain2(t, "hydrate"@, "error"@, true)
    ||| chain2(t, "hydrating"@, "failed"@, true)
    ||| chain2(t, "hydrating"@, "mismatch"@, true)
    ||| chain2(t, "hydrating"@, "error"@, true)
}

/// Invalid hook usage.
pub open spec fn m_invalid_hook(t: Seq<char>) -> bool {
    ||| contains_lit(t, "Invalid hook call"@, true)
    ||| contains_lit(t, "Rules of Hooks"@, true)
    ||| contains_lit(t, "rendered more hooks"@, true)
}

/// Duplicate-key warning.
pub open spec fn m_react_key(t: Seq<char>) -> bool {
    ||| contains_lit(t, "Encountered two children with the same key"@, true)
    ||| contains_lit(t, "Keys should be unique"@, true)
    ||| contains_lit(t, "Non-unique keys may cause"@, true)
}

/// Cross-origin failure.
pub open spec fn m_cors_error(t: Seq<char>) -> bool {
    ||| contains_lit(t, "CORS"@, true)
    ||| contains_lit(t, "Access-Control-Allow-Origin"@, true)
    ||| contains_lit(t, "blocked by CORS"@, true)
    ||| contains_lit(t, "cross-origin"@, true)
}

/// Content-security-policy violation.
pub open spec fn m_csp_error(t: Seq<char>) -> bool {
    ||| contains_lit(t, "Content-Security-Policy"@, true)
    ||| contains_lit(t, "CSP"@, true)
    ||| chain2(t, "blocked"@, "policy"@, true)
    ||| chain2(t, "violat"@, "directive"@, true)
}

/// Mixed-content warning.
pub open spec fn m_mixed_content(t: Seq<char>) -> bool {
    ||| contains_lit(t, "Mixed Content"@, true)
    ||| chain2(t, "blocked"@, "insecure"@, true)
    ||| chain2(t, "http://"@, "https://"@, true)
}

/// Generic security failure.
pub open spec fn m_security_error(t: Seq<char>) -> bool {
    ||| contains_lit(t, "SecurityError"@, true)
    ||| chain2(t, "security"@, "violation"@, true)
    ||| contains_lit(t, "insecure"@, true)
    ||| chain2(t, "blocked"@, "security"@, true)
}

/// Service-worker failure.
pub open spec fn m_service_worker(t: Seq<char>) -> bool {
    ||| contains_lit(t, "ServiceWorker"@, true)
    ||| chain3(t, "service"@, "worker"@, "error"@, true)
    ||| chain3(t, "service"@, "worker"@, "failed"@, true)
    ||| chain2(t, "SW"@, "error"@, true)
    ||| chain2(t, "SW"@, "failed"@, true)
}

/// Media-playback failure.
pub open spec fn m_media_error(t: Seq<char>) -> bool {
    ||| contains_lit(t, "MediaError"@, true)
    ||| chain2(t, "NotSupportedError"@, "media"@, true)
    ||| chain2(t, "play()"@, "failed"@, true)
    ||| chain2(t, "autoplay"@, "blocked"@, true)
}

/// Client-side database failure.
pub open spec fn m_indexeddb_error(t: Seq<char>) -> bool {
    ||| contains_lit(t, "IndexedDB"@, true)
    ||| contains_lit(t, "IDBDatabase"@, true)
    ||| contains_lit(t, "QuotaExceededError"@, true)
    ||| contains_lit(t, "VersionError"@, true)
}

/// Generic network failure.
pub open spec fn m_network_error(t: Seq<char>) -> bool {
    ||| contains_lit(t, "Failed to fetch"@, true)
    ||| contains_lit(t, "NetworkError"@, true)
    ||| contains_lit(t, "net::ERR_"@, true)
    ||| contains_lit(t, "NS_ERROR_"@, true)
    ||| chain2(t, "fetch"@, "failed"@, true)
}

/// Websocket failure.
pub open spec fn m_websocket_error(t: Seq<char>) -> bool {
    ||| chain2(t, "WebSocket"@, "error"@, true)
    ||| chain2(t, "WebSocket"@, "failed"@, true)
    ||| chain2(t, "WebSocket"@, "closed"@, true)
    ||| chain2(t, "ws://"@, "error"@, true)
    ||| chain2(t, "wss://"@, "error"@, true)
}

/// End-to-end test failure.
pub open spec fn m_playwright(t: Seq<char>) -> bool {
    ||| contains_lit(t, "locator.click"@, true)
    ||| contains_lit(t, "locator.fill"@, true)
    ||| contains_lit(t, "locator.waitFor"@, true)
    ||| contains_lit(t, "locator.check"@, true)
    ||| contains_lit(t, "locator.press"@, true)
    ||| contains_lit(t, "locator.type"@, true)
    ||| contains_lit(t, "locator.hover"@, true)
    ||| contains_lit(t, "page.goto"@, true)
    ||| contains_lit(t, "page.waitFor"@, true)
    ||| contains_lit(t, "page.click"@, true)
    ||| chain2(t, "expect("@, ").toBeVisible"@, true)
    ||| chain2(t, "expect("@, ").toHaveText"@, true)
    ||| chain2(t, "expect("@, ").toBeEnabled"@, true)
    ||| chain2(t, "expect("@, ").toBeChecked"@, true)
    ||| chain2(t, "expect("@, ").toContainText"@, true)
    ||| chain2(t, "TimeoutError"@, "locator"@, true)
    ||| contains_lit(t, "waiting for locator"@, true)
    ||| contains_lit(t, "strict mode violation"@, true)
    ||| contains_lit(t, "playwright"@, true)
    ||| contains_lit(t, "@playwright/test"@, true)
}

/// Build-tool specific code.
pub open spec fn m_storybook(t: Seq<char>) -> bool {
    contains_lit(t, "SB_"@, false)
}

/// Framework-specific code.
pub open spec fn m_nextjs(t: Seq<char>) -> bool {
    ||| contains_lit(t, "NEXT_"@, true)
    ||| contains_lit(t, "getServerSideProps"@, true)
    ||| contains_lit(t, "getStaticProps"@, true)
    ||| contains_lit(t, "NextJS"@, true)
    ||| contains_lit(t, "next/"@, true)
}

/// Module-resolution failure.
pub open spec fn m_module_not_found(t: Seq<char>) -> bool {
    ||| contains_lit(t, "Module not found"@, true)
    ||| contains_lit(t, "Cannot find module"@, true)
    ||| contains_lit(t, "Cannot resolve"@, true)
    ||| contains_lit(t, "ModuleNotFoundError"@, true)
}

/// OS-level system error code.
pub open spec fn m_system_error(t: Seq<char>) -> bool {
    ||| contains_lit(t, "ENOENT"@, false)
    ||| contains_lit(t, "EACCES"@, false)
    ||| contains_lit(t, "ECONNREFUSED"@, false)
    ||| contains_lit(t, "ETIMEDOUT"@, false)
    ||| contains_lit(t, "EADDRINUSE"@, false)
    ||| contains_lit(t, "EPERM"@, false)
}

/// Unhandled asynchronous rejection.
pub open spec fn m_unhandled_rejection(t: Seq<char>) -> bool {
    ||| chain2(t, "Unhandled"@, "rejection"@, true)
    ||| contains_lit(t, "UnhandledPromiseRejection"@, true)
    ||| chain2(t, "promise"@, "reject"@, true)
}

/// Deprecation notice.
pub open spec fn m_deprecation(t: Seq<char>) -> bool {
    ||| contains_lit(t, "deprecated"@, true)
    ||| contains_lit(t, "deprecation"@, true)
    ||| contains_lit(t, "will be removed"@, true)
    ||| contains_lit(t, "no longer supported"@, true)
}

// ---------------------------------------------------------------------------
// Minified-framework rule
// ---------------------------------------------------------------------------

/// `Minified React error #` followed directly by a digit occurs at or after
/// `from`.
pub open spec fn minified_scan(t: Seq<char>, from: int) -> bool
    decreases t.len() - from,
{
    if from < 0 || from >= t.len() {
        false
    } else if occ(t, from, "Minified React error #"@, false) && from
        + "Minified React error #"@.len() < t.len() && is_digit(
        t[from + "Minified React error #"@.len()],
    ) {
        true
    } else {
        minified_scan(t, from + 1)
    }
}

/// The production-bundle file name occurs at `i`: `react`, `production`,
/// `min` and `js` separated by single arbitrary non-newline characters.
pub open spec fn prod_at(t: Seq<char>, i: int) -> bool {
    let j1 = i + "react"@.len();
    let j2 = j1 + 1 + "production"@.len();
    let j3 = j2 + 1 + "min"@.len();
    &&& occ(t, i, "react"@, false)
    &&& j1 < t.len() && t[j1] != '\n'
    &&& occ(t, j1 + 1, "production"@, false)
    &&& j2 < t.len() && t[j2] != '\n'
    &&& occ(t, j2 + 1, "min"@, false)
    &&& j3 < t.len() && t[j3] != '\n'
    &&& occ(t, j3 + 1, "js"@, false)
}

pub open spec fn prod_scan(t: Seq<char>, from: int) -> bool
    decreases t.len() - from,
{
    if from < 0 || from >= t.len() {
        false
    } else if prod_at(t, from) {
        true
    } else {
        prod_scan(t, from + 1)
    }
}

/// Minified-framework error: a numbered minified error or the production
/// bundle's file name.
pub open spec fn m_react_minified(t: Seq<char>) -> bool {
    minified_scan(t, 0) || prod_scan(t, 0)
}

fn minified_matches(t: &Vec<char>) -> (r: bool)
    ensures
        r == minified_scan(t@, 0),
{
    let p = chars_of("Minified React error #");
    let mut i: usize = 0;
    loop
        invariant
            p@ == "Minified React error #"@,
            minified_scan(t@, 0) == minified_scan(t@, i as int),
        decreases t.len() + 1 - i,
    {
        if i >= t.len() {
            return false;
        }
        if occ_at(t, i, &p, false) {
            let e: usize = i + p.len();
            if e < t.len() && ex_is_digit(t[e]) {
                return true;
            }
        }
        proof {
            if minified_scan(t@, i as int) && !minified_scan(t@, i + 1) {
                assert(false);
            }
        }
        i += 1;
    }
}

fn react_minified_matches(t: &Vec<char>) -> (r: bool)
    ensures
        r == m_react_minified(t@),
{
    if minified_matches(t) {
        return true;
    }
    let re = chars_of("react");
    let pr = chars_of("production");
    let mi = chars_of("min");
    let js = chars_of("js");
    let mut i: usize = 0;
    loop
        invariant
            re@ == "react"@,
            pr@ == "production"@,
            mi@ == "min"@,
            js@ == "js"@,
            !minified_scan(t@, 0),
            prod_scan(t@, 0) == prod_scan(t@, i as int),
        decreases t.len() + 1 - i,
    {
        if i >= t.len() {
            proof {
                assert(!prod_scan(t@, i as int));
            }
            return false;
        }
        if occ_at(t, i, &re, false) {
            let j1: usize = i + re.len();
            if j1 < t.len() && t[j1] != '\n' && occ_at(t, j1 + 1, &pr, false) {
                let j2: usize = j1 + 1 + pr.len();
                if j2 < t.len() && t[j2] != '\n' && occ_at(t, j2 + 1, &mi, false) {
                    let j3: usize = j2 + 1 + mi.len();
                    if j3 < t.len() && t[j3] != '\n' && occ_at(t, j3 + 1, &js, false) {
                        return true;
                    }
                }
            }
        }
        proof {
            if prod_at(t@, i as int) {
                assert(false);
            }
        }
        i += 1;
    }
}

// ---------------------------------------------------------------------------
// Line-anchored JavaScript error rules
// ---------------------------------------------------------------------------

/// After a console location prefix's colon: one or more digits, then one or
/// more whitespace characters, then the error name `w`.
pub open spec fn js_ddw(t: Seq<char>, q: int, w: Seq<char>) -> bool {
    let d = digits_end(t, q);
    let e = ws_end(t, d);
    d > q && e > d && occ(t, e, w, false)
}

/// Scanning the non-whitespace prefix token for a colon that begins
/// `:digits whitespace w`.
pub open spec fn js_pfx(t: Seq<char>, a: int, w: Seq<char>) -> bool
    decreases t.len() - a,
{
    if a < 0 || a >= t.len() {
        false
    } else if t[a] == ':' && js_ddw(t, a + 1, w) {
        true
    } else if is_space(t[a]) {
        false
    } else {
        js_pfx(t, a + 1, w)
    }
}

/// At line-start position `p`: the error name directly, or a
/// `file:line whitespace` console prefix followed by the error name.
pub open spec fn js_line_at(t: Seq<char>, p: int, w: Seq<char>) -> bool {
    ||| occ(t, p, w, false)
    ||| (0 <= p < t.len() && !is_space(t[p]) && js_pfx(t, p + 1, w))
}

pub open spec fn js_scan(t: Seq<char>, from: int, w: Seq<char>) -> bool
    decreases t.len() - from,
{
    if from < 0 || from >= t.len() {
        false
    } else if (from == 0 || t[from - 1] == '\n') && js_line_at(t, from, w) {
        true
    } else {
        js_scan(t, from + 1, w)
    }
}

/// A JavaScript runtime error rule: the name anchored at some line start
/// (with an optional console `file:line` prefix), or the `Uncaught` form
/// anywhere.
pub open spec fn m_js_error(t: Seq<char>, w: Seq<char>, anywhere: Seq<char>) -> bool {
    contains_lit(t, anywhere, false) || js_scan(t, 0, w)
}

fn js_ddw_at(t: &Vec<char>, q: usize, w: &Vec<char>) -> (r: bool)
    requires
        q <= t.len(),
    ensures
        r == js_ddw(t@, q as int, w@),
{
    let d = ex_digits_end(t, q);
    if d == q {
        return false;
    }
    let e = ex_ws_end(t, d);
    if e == d {
        return false;
    }
    occ_at(t, e, w, false)
}

fn js_pfx_scan(t: &Vec<char>, from: usize, w: &Vec<char>) -> (r: bool)
    ensures
        r == js_pfx(t@, from as int, w@),
{
    let mut a: usize = from;
    loop
        invariant
            from <= a,
            js_pfx(t@, from as int, w@) == js_pfx(t@, a as int, w@),
        decreases t.len() + 1 - a,
    {
        if a >= t.len() {
            return false;
        }
        if t[a] == ':' && js_ddw_at(t, a + 1, w) {
            return true;
        }
        if ex_is_space(t[a]) {
            return false;
        }
        a += 1;
    }
}

fn js_error_matches(t: &Vec<char>, w: &Vec<char>, anywhere: &Vec<char>) -> (r: bool)
    ensures
        r == m_js_error(t@, w@, anywhere@),
{
    if contains(t, anywhere, false) {
        return true;
    }
    let mut i: usize = 0;
    loop
        invariant
            !contains_lit(t@, anywhere@, false),
            js_scan(t@, 0, w@) == js_scan(t@, i as int, w@),
        decreases t.len() + 1 - i,
    {
        if i >= t.len() {
            proof {
                assert(!js_scan(t@, i as int, w@));
            }
            return false;
        }
        if i == 0 || t[i - 1] == '\n' {
            if occ_at(t, i, w, false) {
                return true;
            }
            if !ex_is_space(t[i]) && js_pfx_scan(t, i + 1, w) {
                return true;
            }
        }
        i += 1;
    }
}

pub open spec fn m_type_error(t: Seq<char>) -> bool {
    m_js_error(t, "TypeError:"@, "Uncaught TypeError"@)
}

pub open spec fn m_ref_error(t: Seq<char>) -> bool {
    m_js_error(t, "ReferenceError:"@, "Uncaught ReferenceError"@)
}

pub open spec fn m_syntax_error(t: Seq<char>) -> bool {
    m_js_error(t, "SyntaxError:"@, "Uncaught SyntaxError"@)
}

pub open spec fn m_range_error(t: Seq<char>) -> bool {
    m_js_error(t, "RangeError:"@, "Uncaught RangeError"@)
}

pub open spec fn m_uri_error(t: Seq<char>) -> bool {
    m_js_error(t, "URIError:"@, "Uncaught URIError"@)
}

pub open spec fn m_eval_error(t: Seq<char>) -> bool {
    m_js_error(t, "EvalError:"@, "Uncaught EvalError"@)
}

// ---------------------------------------------------------------------------
// HTTP status rule
// ---------------------------------------------------------------------------

/// A 4xx or 5xx status begins at `i` and ends at a word boundary.
pub open spec fn status_at(t: Seq<char>, i: int) -> bool {
    &&& 0 <= i && i + 3 <= t.len()
    &&& (t[i] == '4' || t[i] == '5')
    &&& is_digit(t[i + 1])
    &&& is_digit(t[i + 2])
    &&& (i + 3 == t.len() || !is_word(t[i + 3]))
}

/// An HTTP verb at a word boundary, whitespace, a request target,
/// whitespace, then a 4xx/5xx status at a word boundary.
pub open spec fn http_verb_at(t: Seq<char>, i: int, v: Seq<char>) -> bool {
    let a = ws_end(t, i + v.len());
    let b = non_space_end(t, a);
    let c = ws_end(t, b);
    &&& (i == 0 || !is_word(t[i - 1]))
    &&& occ(t, i, v, true)
    &&& a > i + v.len()
    &&& b > a
    &&& c > b
    &&& status_at(t, c)
}

pub open spec fn http_verb_scan(t: Seq<char>, from: int, v: Seq<char>) -> bool
    decreases t.len() - from,
{
    if from < 0 || from >= t.len() {
        false
    } else if http_verb_at(t, from, v) {
        true
    } else {
        http_verb_scan(t, from + 1, v)
    }
}

/// End of the run of colons and whitespace starting at `i`.
pub open spec fn colsp_end(s: Seq<char>, i: int) -> int
    decreases s.len() - i,
{
    if 0 <= i < s.len() && (s[i] == ':' || is_space(s[i])) {
        colsp_end(s, i + 1)
    } else {
        i
    }
}

/// The word `status`, then colons or whitespace, then a 4xx/5xx status at a
/// word boundary.
pub open spec fn http_kw_at(t: Seq<char>, i: int) -> bool {
    let a = colsp_end(t, i + "status"@.len());
    &&& occ(t, i, "status"@, true)
    &&& a > i + "status"@.len()
    &&& status_at(t, a)
}

pub open spec fn http_kw_scan(t: Seq<char>, from: int) -> bool
    decreases t.len() - from,
{
    if from < 0 || from >= t.len() {
        false
    } else if http_kw_at(t, from) {
        true
    } else {
        http_kw_scan(t, from + 1)
    }
}

/// A 4xx/5xx status at word boundaries, whitespace, then a standard status
/// phrase.
pub open spec fn http_code_at(t: Seq<char>, i: int, phrase: Seq<char>) -> bool {
    let a = ws_end(t, i + 3);
    &&& 0 <= i && i + 3 <= t.len()
    &&& (i == 0 || !is_word(t[i - 1]))
    &&& (t[i] == '4' || t[i] == '5')
    &&& is_digit(t[i + 1])
    &&& is_digit(t[i + 2])
    &&& a > i + 3
    &&& occ(t, a, phrase, true)
}

pub open spec fn http_code_scan(t: Seq<char>, from: int, phrase: Seq<char>) -> bool
    decreases t.len() - from,
{
    if from < 0 || from >= t.len() {
        false
    } else if http_code_at(t, from, phrase) {
        true
    } else {
        http_code_scan(t, from + 1, phrase)
    }
}

/// HTTP status error: a failed request line, a quoted `status:`, or a bare
/// status with its standard phrase.
pub open spec fn m_http_error(t: Seq<char>) -> bool {
    ||| http_verb_scan(t, 0, "GET"@)
    ||| http_verb_scan(t, 0, "POST"@)
    ||| http_verb_scan(t, 0, "PUT"@)
    ||| http_verb_scan(t, 0, "DELETE"@)
    ||| http_verb_scan(t, 0, "PATCH"@)
    ||| http_kw_scan(t, 0)
    ||| http_code_scan(t, 0, "Not Found"@)
    ||| http_code_scan(t, 0, "Internal Server"@)
    ||| http_code_scan(t, 0, "Bad Request"@)
    ||| http_code_scan(t, 0, "Unauthorized"@)
    ||| http_code_scan(t, 0, "Forbidden"@)
}

pub(crate) fn ex_status_at(t: &Vec<char>, i: usize) -> (r: bool)
    ensures
        r == status_at(t@, i as int),
{
    if i > t.len() || t.len() - i < 3 {
        return false;
    }
    (t[i] == '4' || t[i] == '5') && ex_is_digit(t[i + 1]) && ex_is_digit(t[i + 2]) && (i + 3
        == t.len() || !ex_is_word(t[i + 3]))
}

fn http_verb_matches(t: &Vec<char>, v: &Vec<char>) -> (r: bool)
    ensures
        r == http_verb_scan(t@, 0, v@),
{
    let mut i: usize = 0;
    loop
        invariant
            http_verb_scan(t@, 0, v@) == http_verb_scan(t@, i as int, v@),
        decreases t.len() + 1 - i,
    {
        if i >= t.len() {
            return false;
        }
        if (i == 0 || !ex_is_word(t[i - 1])) && occ_at(t, i, v, true) {
            let a = ex_ws_end(t, i + v.len());
            if a > i + v.len() {
                let b = ex_non_space_end(t, a);
                if b > a {
                    let c = ex_ws_end(t, b);
                    if c > b && ex_status_at(t, c) {
                        return true;
                    }
                }
            }
        }
        proof {
            if http_verb_at(t@, i as int, v@) {
                assert(false);
            }
        }
        i += 1;
    }
}

fn ex_colsp_end(t: &Vec<char>, i: usize) -> (r: usize)
    requires
        i <= t.len(),
    ensures
        r == colsp_end(t@, i as int),
        i <= r <= t.len(),
{
    let mut j: usize = i;
    while j < t.len() && (t[j] == ':' || ex_is_space(t[j]))
        invariant
            i <= j <= t.len(),
            colsp_end(t@, i as int) == colsp_end(t@, j as int),
        decreases t.len() - j,
    {
        j += 1;
    }
    j
}

fn http_kw_matches(t: &Vec<char>) -> (r: bool)
    ensures
        r == http_kw_scan(t@, 0),
{
    let kw = chars_of("status");
    let mut i: usize = 0;
    loop
        invariant
            kw@ == "status"@,
            http_kw_scan(t@, 0) == http_kw_scan(t@, i as int),
        decreases t.len() + 1 - i,
    {
        if i >= t.len() {
            return false;
        }
        if occ_at(t, i, &kw, true) {
            let a = ex_colsp_end(t, i + kw.len());
            if a > i + kw.len() && ex_status_at(t, a) {
                return true;
            }
        }
        proof {
            if http_kw_at(t@, i as int) {
                assert(false);
            }
        }
        i += 1;
    }
}

fn http_code_matches(t: &Vec<char>, phrase: &Vec<char>) -> (r: bool)
    ensures
        r == http_code_scan(t@, 0, phrase@),
{
    let mut i: usize = 0;
    loop
        invariant
            http_code_scan(t@, 0, phrase@) == http_code_scan(t@, i as int, phrase@),
        decreases t.len() + 1 - i,
    {
        if i >= t.len() {
            return false;
        }
        if t.len() - i >= 3 && (i == 0 || !ex_is_word(t[i - 1])) && (t[i] == '4' || t[i] == '5')
            && ex_is_digit(t[i + 1]) && ex_is_digit(t[i + 2]) {
            let a = ex_ws_end(t, i + 3);
            if a > i + 3 && occ_at(t, a, phrase, true) {
                return true;
            }
        }
        proof {
            if http_code_at(t@, i as int, phrase@) {
                assert(false);
            }
        }
        i += 1;
    }
}

fn http_error_matches(t: &Vec<char>) -> (r: bool)
    ensures
        r == m_http_error(t@),
{
    http_verb_matches(t, &chars_of("GET")) || http_verb_matches(t, &chars_of("POST"))
        || http_verb_matches(t, &chars_of("PUT")) || http_verb_matches(t, &chars_of("DELETE"))
        || http_verb_matches(t, &chars_of("PATCH")) || http_kw_matches(t) || http_code_matches(
        t,
        &chars_of("Not Found"),
    ) || http_code_matches(t, &chars_of("Internal Server")) || http_code_matches(
        t,
        &chars_of("Bad Request"),
    ) || http_code_matches(t, &chars_of("Unauthorized")) || http_code_matches(
        t,
        &chars_of("Forbidden"),
    )
}

// ---------------------------------------------------------------------------
// Catch-all stack-trace rule
// ---------------------------------------------------------------------------

/// At `k`: a colon, digits, a colon, digits, and a closing parenthesis.
pub open spec fn frame_tail_at(t: Seq<char>, k: int) -> bool {
    let d1 = digits_end(t, k + 1);
    let d2 = digits_end(t, d1 + 1);
    &&& 0 <= k < t.len()
    &&& t[k] == ':'
    &&& d1 > k + 1
    &&& d1 < t.len() && t[d1] == ':'
    &&& d2 > d1 + 1
    &&& d2 < t.len() && t[d2] == ')'
}

/// Scan for the `:line:column)` tail before the line ends.
pub open spec fn tail_scan(t: Seq<char>, from: int) -> bool
    decreases t.len() - from,
{
    if from < 0 || from >= t.len() {
        false
    } else if frame_tail_at(t, from) {
        true
    } else if t[from] == '\n' {
        false
    } else {
        tail_scan(t, from + 1)
    }
}

/// Scan for ` (` followed on the same line by a `:line:column)` tail.
pub open spec fn paren_scan(t: Seq<char>, from: int) -> bool
    decreases t.len() - from,
{
    if from < 0 || from >= t.len() {
        false
    } else if occ(t, from, " ("@, false) && tail_scan(t, from + " ("@.len()) {
        true
    } else if t[from] == '\n' {
        false
    } else {
        paren_scan(t, from + 1)
    }
}

/// Scan for `at ` followed on the same line by a parenthesised call site
/// with line and column numbers.
pub open spec fn at_frame_scan(t: Seq<char>, from: int) -> bool
    decreases t.len() - from,
{
    if from < 0 || from >= t.len() {
        false
    } else if occ(t, from, "at "@, false) && paren_scan(t, from + "at "@.len()) {
        true
    } else {
        at_frame_scan(t, from + 1)
    }
}

/// Scan the line starting at `from` for `at` followed by whitespace.
pub open spec fn at_ws_scan(t: Seq<char>, from: int) -> bool
    decreases t.len() - from,
{
    if from < 0 || from >= t.len() {
        false
    } else if occ(t, from, "at"@, false) && from + "at"@.len() < t.len() && is_space(
        t[from + "at"@.len()],
    ) {
        true
    } else if t[from] == '\n' {
        false
    } else {
        at_ws_scan(t, from + 1)
    }
}

/// Scan the line for its terminating newline; the following line must carry
/// an `at ` frame marker.
pub open spec fn err_line_scan(t: Seq<char>, from: int) -> bool
    decreases t.len() - from,
{
    if from < 0 || from >= t.len() {
        false
    } else if t[from] == '\n' {
        at_ws_scan(t, from + 1)
    } else {
        err_line_scan(t, from + 1)
    }
}

/// Scan for `Error:` with an `at`-frame on the following line.
pub open spec fn err_nl_scan(t: Seq<char>, from: int) -> bool
    decreases t.len() - from,
{
    if from < 0 || from >= t.len() {
        false
    } else if occ(t, from, "Error:"@, false) && err_line_scan(t, from + "Error:"@.len()) {
        true
    } else {
        err_nl_scan(t, from + 1)
    }
}

/// Catch-all rule: a parenthesised stack frame with line and column, or an
/// `Error:` line followed by an indented frame line.
pub open spec fn m_runtime_error(t: Seq<char>) -> bool {
    at_frame_scan(t, 0) || err_nl_scan(t, 0)
}

fn ex_frame_tail_at(t: &Vec<char>, k: usize) -> (r: bool)
    ensures
        r == frame_tail_at(t@, k as int),
{
    if k >= t.len() || t[k] != ':' {
        return false;
    }
    let d1 = ex_digits_end(t, k + 1);
    if d1 == k + 1 || d1 >= t.len() || t[d1] != ':' {
        return false;
    }
    let d2 = ex_digits_end(t, d1 + 1);
    if d2 == d1 + 1 || d2 >= t.len() || t[d2] != ')' {
        return false;
    }
    true
}

fn tail_scan_from(t: &Vec<char>, from: usize) -> (r: bool)
    ensures
        r == tail_scan(t@, from as int),
{
    let mut j: usize = from;
    loop
        invariant
            from <= j,
            tail_scan(t@, from as int) == tail_scan(t@, j as int),
        decreases t.len() + 1 - j,
    {
        if j >= t.len() {
            return false;
        }
        if ex_frame_tail_at(t, j) {
            return true;
        }
        if t[j] == '\n' {
            return false;
        }
        j += 1;
    }
}

fn paren_scan_from(t: &Vec<char>, from: usize, par: &Vec<char>) -> (r: bool)
    requires
        par@ == " ("@,
    ensures
        r == paren_scan(t@, from as int),
{
    let mut j: usize = from;
    loop
        invariant
            from <= j,
            par@ == " ("@,
            paren_scan(t@, from as int) == paren_scan(t@, j as int),
        decreases t.len() + 1 - j,
    {
        if j >= t.len() {
            return false;
        }
        if occ_at(t, j, par, false) && tail_scan_from(t, j + par.len()) {
            return true;
        }
        if t[j] == '\n' {
            return false;
        }
        j += 1;
    }
}

fn at_ws_scan_from(t: &Vec<char>, from: usize, at: &Vec<char>) -> (r: bool)
    requires
        at@ == "at"@,
    ensures
        r == at_ws_scan(t@, from as int),
{
    let mut j: usize = from;
    loop
        invariant
            from <= j,
            at@ == "at"@,
            at_ws_scan(t@, from as int) == at_ws_scan(t@, j as int),
        decreases t.len() + 1 - j,
    {
        if j >= t.len() {
            return false;
        }
        if occ_at(t, j, at, false) {
            let e: usize = j + at.len();
            if e < t.len() && ex_is_space(t[e]) {
                return true;
            }
        }
        if t[j] == '\n' {
            return false;
        }
        j += 1;
    }
}

fn err_line_scan_from(t: &Vec<char>, from: usize, at: &Vec<char>) -> (r: bool)
    requires
        at@ == "at"@,
    ensures
        r == err_line_scan(t@, from as int),
{
    let mut j: usize = from;
    loop
        invariant
            from <= j,
            at@ == "at"@,
            err_line_scan(t@, from as int) == err_line_scan(t@, j as int),
        decreases t.len() + 1 - j,
    {
        if j >= t.len() {
            return false;
        }
        if t[j] == '\n' {
            return at_ws_scan_from(t, j + 1, at);
        }
        j += 1;
    }
}

fn at_frame_matches(t: &Vec<char>) -> (r: bool)
    ensures
        r == at_frame_scan(t@, 0),
{
    let atsp = chars_of("at ");
    let par = chars_of(" (");
    let mut i: usize = 0;
    loop
        invariant
            atsp@ == "at "@,
            par@ == " ("@,
            at_frame_scan(t@, 0) == at_frame_scan(t@, i as int),
        decreases t.len() + 1 - i,
    {
        if i >= t.len() {
            return false;
        }
        if occ_at(t, i, &atsp, false) && paren_scan_from(t, i + atsp.len(), &par) {
            return true;
        }
        i += 1;
    }
}

fn runtime_error_matches(t: &Vec<char>) -> (r: bool)
    ensures
        r == m_runtime_error(t@),
{
    if at_frame_matches(t) {
        return true;
    }
    let err = chars_of("Error:");
    let at = chars_of("at");
    let mut i: usize = 0;
    loop
        invariant
            err@ == "Error:"@,
            at@ == "at"@,
            !at_frame_scan(t@, 0),
            err_nl_scan(t@, 0) == err_nl_scan(t@, i as int),
        decreases t.len() + 1 - i,
    {
        if i >= t.len() {
            proof {
                assert(!err_nl_scan(t@, i as int));
            }
            return false;
        }
        if occ_at(t, i, &err, false) && err_line_scan_from(t, i + err.len(), &at) {
            return true;
        }
        i += 1;
    }
}

// ---------------------------------------------------------------------------
// Dispatch and the classifier
// ---------------------------------------------------------------------------

/// The detection rule of one category.
pub open spec fn spec_matches(cat: ErrorType, t: Seq<char>) -> bool {
    match cat {
        ErrorType::DomNesting => m_dom_nesting(t),
        ErrorType::Hydration => m_hydration(t),
        ErrorType::ReactMinified => m_react_minified(t),
        ErrorType::InvalidHook => m_invalid_hook(t),
        ErrorType::ReactKey => m_react_key(t),
        ErrorType::TypeError => m_type_error(t),
        ErrorType::RefError => m_ref_error(t),
        ErrorType::SyntaxError => m_syntax_error(t),
        ErrorType::RangeError => m_range_error(t),
        ErrorType::UriError => m_uri_error(t),
        ErrorType::EvalError => m_eval_error(t),
        ErrorType::CorsError => m_cors_error(t),
        ErrorType::NetworkError => m_network_error(t),
        ErrorType::HttpError => m_http_error(t),
        ErrorType::WebSocketError => m_websocket_error(t),
        ErrorType::CspError => m_csp_error(t),
        ErrorType::SecurityError => m_security_error(t),
        ErrorType::MixedContent => m_mixed_content(t),
        ErrorType::Storybook => m_storybook(t),
        ErrorType::NextJs => m_nextjs(t),
        ErrorType::ModuleNotFound => m_module_not_found(t),
        ErrorType::Playwright => m_playwright(t),
        ErrorType::SystemError => m_system_error(t),
        ErrorType::UnhandledRejection => m_unhandled_rejection(t),
        ErrorType::MediaError => m_media_error(t),
        ErrorType::IndexedDbError => m_indexeddb_error(t),
        ErrorType::ServiceWorker => m_service_worker(t),
        ErrorType::Deprecation => m_deprecation(t),
        ErrorType::RuntimeError => m_runtime_error(t),
    }
}

/// Check one category's detection rule.
pub fn matches_category(cat: ErrorType, t: &Vec<char>) -> (r: bool)
    ensures
        r == spec_matches(cat, t@),
{
    match cat {
        ErrorType::DomNesting => contains(t, &chars_of("validateDOMNesting"), true),
        ErrorType::Hydration => {
            let failed = chars_of("failed");
            let mismatch = chars_of("mismatch");
            let error = chars_of("error");
            let a1 = chars_of("hydration");
            let a2 = chars_of("hydrate");
            let a3 = chars_of("hydrating");
            match_chain2(t, &a1, &failed, true) || match_chain2(t, &a1, &mismatch, true)
                || match_chain2(t, &a1, &error, true) || match_chain2(t, &a2, &failed, true)
                || match_chain2(t, &a2, &mismatch, true) || match_chain2(t, &a2, &error, true)
                || match_chain2(t, &a3, &failed, true) || match_chain2(t, &a3, &mismatch, true)
                || match_chain2(t, &a3, &error, true)
        },
        ErrorType::ReactMinified => react_minified_matches(t),
        ErrorType::InvalidHook => {
            contains(t, &chars_of("Invalid hook call"), true) || contains(
                t,
                &chars_of("Rules of Hooks"),
                true,
            ) || contains(t, &chars_of("rendered more hooks"), true)
        },
        ErrorType::ReactKey => {
            contains(t, &chars_of("Encountered two children with the same key"), true) || contains(
                t,
                &chars_of("Keys should be unique"),
                true,
            ) || contains(t, &chars_of("Non-unique keys may cause"), true)
        },
        ErrorType::TypeError => js_error_matches(
            t,
            &chars_of("TypeError:"),
            &chars_of("Uncaught TypeError"),
        ),
        ErrorType::RefError => js_error_matches(
            t,
            &chars_of("ReferenceError:"),
            &chars_of("Uncaught ReferenceError"),
        ),
        ErrorType::SyntaxError => js_error_matches(
            t,
            &chars_of("SyntaxError:"),
            &chars_of("Uncaught SyntaxError"),
        ),
        ErrorType::RangeError => js_error_matches(
            t,
            &chars_of("RangeError:"),
            &chars_of("Uncaught RangeError"),
        ),
        ErrorType::UriError => js_error_matches(
            t,
            &chars_of("URIError:"),
            &chars_of("Uncaught URIError"),
        ),
        ErrorType::EvalError => js_error_matches(
            t,
            &chars_of("EvalError:"),
            &chars_of("Uncaught EvalError"),
        ),
        ErrorType::CorsError => {
            contains(t, &chars_of("CORS"), true) || contains(
                t,
                &chars_of("Access-Control-Allow-Origin"),
                true,
            ) || contains(t, &chars_of("blocked by CORS"), true) || contains(
                t,
                &chars_of("cross-origin"),
                true,
            )
        },
        ErrorType::NetworkError => {
            contains(t, &chars_of("Failed to fetch"), true) || contains(
                t,
                &chars_of("NetworkError"),
                true,
            ) || contains(t, &chars_of("net::ERR_"), true) || contains(
                t,
                &chars_of("NS_ERROR_"),
                true,
            ) || match_chain2(t, &chars_of("fetch"), &chars_of("failed"), true)
        },
        ErrorType::HttpError => http_error_matches(t),
        ErrorType::WebSocketError => {
            let ws = chars_of("WebSocket");
            match_chain2(t, &ws, &chars_of("error"), true) || match_chain2(
                t,
                &ws,
                &chars_of("failed"),
                true,
            ) || match_chain2(t, &ws, &chars_of("closed"), true) || match_chain2(
                t,
                &chars_of("ws://"),
                &chars_of("error"),
                true,
            ) || match_chain2(t, &chars_of("wss://"), &chars_of("error"), true)
        },
        ErrorType::CspError => {
            contains(t, &chars_of("Content-Security-Policy"), true) || contains(
                t,
                &chars_of("CSP"),
                true,
            ) || match_chain2(t, &chars_of("blocked"), &chars_of("policy"), true) || match_chain2(
                t,
                &chars_of("violat"),
                &chars_of("directive"),
                true,
            )
        },
        ErrorType::SecurityError => {
            contains(t, &chars_of("SecurityError"), true) || match_chain2(
                t,
                &chars_of("security"),
                &chars_of("violation"),
                true,
            ) || contains(t, &chars_of("insecure"), true) || match_chain2(
                t,
                &chars_of("blocked"),
                &chars_of("security"),
                true,
            )
        },
        ErrorType::MixedContent => {
            contains(t, &chars_of("Mixed Content"), true) || match_chain2(
                t,
                &chars_of("blocked"),
                &chars_of("insecure"),
                true,
            ) || match_chain2(t, &chars_of("http://"), &chars_of("https://"), true)
        },
        ErrorType::Storybook => contains(t, &chars_of("SB_"), false),
        ErrorType::NextJs => {
            contains(t, &chars_of("NEXT_"), true) || contains(
                t,
                &chars_of("getServerSideProps"),
                true,
            ) || contains(t, &chars_of("getStaticProps"), true) || contains(
                t,
                &chars_of("NextJS"),
                true,
            ) || contains(t, &chars_of("next/"), true)
        },
        ErrorType::ModuleNotFound => {
            contains(t, &chars_of("Module not found"), true) || contains(
                t,
                &chars_of("Cannot find module"),
                true,
            ) || contains(t, &chars_of("Cannot resolve"), true) || contains(
                t,
                &chars_of("ModuleNotFoundError"),
                true,
            )
        },
        ErrorType::Playwright => {
            let ex = chars_of("expect(");
            contains(t, &chars_of("locator.click"), true) || contains(
                t,
                &chars_of("locator.fill"),
                true,
            ) || contains(t, &chars_of("locator.waitFor"), true) || contains(
                t,
                &chars_of("locator.check"),
                true,
            ) || contains(t, &chars_of("locator.press"), true) || contains(
                t,
                &chars_of("locator.type"),
                true,
            ) || contains(t, &chars_of("locator.hover"), true) || contains(
                t,
                &chars_of("page.goto"),
                true,
            ) || contains(t, &chars_of("page.waitFor"), true) || contains(
                t,
                &chars_of("page.click"),
                true,
            ) || match_chain2(t, &ex, &chars_of(").toBeVisible"), true) || match_chain2(
                t,
                &ex,
                &chars_of(").toHaveText"),
                true,
            ) || match_chain2(t, &ex, &chars_of(").toBeEnabled"), true) || match_chain2(
                t,
                &ex,
                &chars_of(").toBeChecked"),
                true,
            ) || match_chain2(t, &ex, &chars_of(").toContainText"), true) || match_chain2(
                t,
                &chars_of("TimeoutError"),
                &chars_of("locator"),
                true,
            ) || contains(t, &chars_of("waiting for locator"), true) || contains(
                t,
                &chars_of("strict mode violation"),
                true,
            ) || contains(t, &chars_of("playwright"), true) || contains(
                t,
                &chars_of("@playwright/test"),
                true,
            )
        },
        ErrorType::SystemError => {
            contains(t, &chars_of("ENOENT"), false) || contains(t, &chars_of("EACCES"), false)
                || contains(t, &chars_of("ECONNREFUSED"), false) || contains(
                t,
                &chars_of("ETIMEDOUT"),
                false,
            ) || contains(t, &chars_of("EADDRINUSE"), false) || contains(
                t,
                &chars_of("EPERM"),
                false,
            )
        },
        ErrorType::UnhandledRejection => {
            match_chain2(t, &chars_of("Unhandled"), &chars_of("rejection"), true) || contains(
                t,
                &chars_of("UnhandledPromiseRejection"),
                true,
            ) || match_chain2(t, &chars_of("promise"), &chars_of("reject"), true)
        },
        ErrorType::MediaError => {
            contains(t, &chars_of("MediaError"), true) || match_chain2(
                t,
                &chars_of("NotSupportedError"),
                &chars_of("media"),
                true,
            ) || match_chain2(t, &chars_of("play()"), &chars_of("failed"), true) || match_chain2(
                t,
                &chars_of("autoplay"),
                &chars_of("blocked"),
                true,
            )
        },
        ErrorType::IndexedDbError => {
            contains(t, &chars_of("IndexedDB"), true) || contains(
                t,
                &chars_of("IDBDatabase"),
                true,
            ) || contains(t, &chars_of("QuotaExceededError"), true) || contains(
                t,
                &chars_of("VersionError"),
                true,
            )
        },
        ErrorType::ServiceWorker => {
            contains(t, &chars_of("ServiceWorker"), true) || match_chain3(
                t,
                &chars_of("service"),
                &chars_of("worker"),
                &chars_of("error"),
                true,
            ) || match_chain3(
                t,
                &chars_of("service"),
                &chars_of("worker"),
                &chars_of("failed"),
                true,
            ) || match_chain2(t, &chars_of("SW"), &chars_of("error"), true) || match_chain2(
                t,
                &chars_of("SW"),
                &chars_of("failed"),
                true,
            )
        },
        ErrorType::Deprecation => {
            contains(t, &chars_of("deprecated"), true) || contains(
                t,
                &chars_of("deprecation"),
                true,
            ) || contains(t, &chars_of("will be removed"), true) || contains(
                t,
                &chars_of("no longer supported"),
                true,
            )
        },
        ErrorType::RuntimeError => runtime_error_matches(t),
    }
}

/// The first category at or after index `k` of `cats` whose rule matches.
pub open spec fn first_match_at(cats: Seq<ErrorType>, t: Seq<char>, k: int) -> Option<ErrorType>
    decreases cats.len() - k,
{
    if k < 0 || k >= cats.len() {
        None
    } else if spec_matches(cats[k], t) {
        Some(cats[k])
    } else {
        first_match_at(cats, t, k + 1)
    }
}

/// The category assigned to a text: the first rule in priority order that
/// matches, or nothing when no rule does.
pub open spec fn spec_classify(t: Seq<char>) -> Option<ErrorType> {
    first_match_at(spec_order(), t, 0)
}

/// Classify a text by walking the detection rules in priority order.
/// Returns `None` exactly when no rule matches, in which case the caller is
/// expected to pass the input through unchanged.
pub fn detect_error_type(input: &str) -> (r: Option<ErrorType>)
    ensures
        r == spec_classify(input@),
{
    let t = chars_of(input);
    let cats = ErrorType::all();
    let mut k: usize = 0;
    while k < cats.len()
        invariant
            t@ == input@,
            cats@ == spec_order(),
            k <= cats.len(),
            spec_classify(input@) == first_match_at(spec_order(), input@, k as int),
        decreases cats.len() - k,
    {
        if matches_category(cats[k], &t) {
            return Some(cats[k]);
        }
        k += 1;
    }
    None
}

} // verus!
