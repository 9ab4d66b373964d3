//! The pattern matcher: tests the manifest text for the two conditions that
//! together indicate silent elevation, both of which must hold:
//!
//! 1. an `autoElevate` element whose content, ignoring surrounding
//!    whitespace, is exactly `true` (whitespace around the angle brackets and
//!    inside the element boundary is tolerated);
//! 2. a `requestedExecutionLevel` tag with an attribute `level` whose value
//!    is exactly the string `requireAdministrator`.

use vstd::prelude::*;

verus! {

/// Whitespace tolerated inside the patterns.
pub open spec fn is_space(c: char) -> bool {
    c == ' ' || c == '\t' || c == '\n' || c == '\r' || c == '\u{b}' || c == '\u{c}'
}

/// Every character of `t` in `[lo, hi)` is whitespace.
pub open spec fn all_spaces(t: Seq<char>, lo: int, hi: int) -> bool {
    forall|k: int| lo <= k < hi ==> is_space(t[k])
}

/// A run of whitespace (possibly empty) reaches from `j` to `j2`.
pub open spec fn gap_to(t: Seq<char>, j: int, j2: int) -> bool {
    j <= j2 <= t.len() && all_spaces(t, j, j2)
}

/// The literal `w` occurs at position `j` of `t`.
pub open spec fn lit_at(t: Seq<char>, j: int, w: Seq<char>) -> bool {
    0 <= j && j + w.len() <= t.len() && t.subrange(j, j + w.len() as int) == w
}

pub open spec fn lt_sign() -> Seq<char> {
    seq!['<']
}

pub open spec fn gt_sign() -> Seq<char> {
    seq!['>']
}

pub open spec fn slash_sign() -> Seq<char> {
    seq!['/']
}

pub open spec fn eq_sign() -> Seq<char> {
    seq!['=']
}

pub open spec fn auto_elevate_name() -> Seq<char> {
    seq!['a', 'u', 't', 'o', 'E', 'l', 'e', 'v', 'a', 't', 'e']
}

pub open spec fn true_text() -> Seq<char> {
    seq!['t', 'r', 'u', 'e']
}

pub open spec fn req_level_name() -> Seq<char> {
    seq![
        'r', 'e', 'q', 'u', 'e', 's', 't', 'e', 'd', 'E', 'x', 'e', 'c', 'u', 't', 'i', 'o', 'n',
        'L', 'e', 'v', 'e', 'l',
    ]
}

pub open spec fn level_attr() -> Seq<char> {
    seq!['l', 'e', 'v', 'e', 'l']
}

pub open spec fn require_admin_quoted() -> Seq<char> {
    seq![
        '"', 'r', 'e', 'q', 'u', 'i', 'r', 'e', 'A', 'd', 'm', 'i', 'n', 'i', 's', 't', 'r', 'a',
        't', 'o', 'r', '"',
    ]
}

// Stages of the first pattern, `<autoElevate>true</autoElevate>` with
// whitespace runs tolerated at each element boundary, chained back to front.
pub open spec fn ae_close2(t: Seq<char>, j: int) -> bool {
    exists|x: int| gap_to(t, j, x) && lit_at(t, x, gt_sign())
}

pub open spec fn ae_name2(t: Seq<char>, j: int) -> bool {
    exists|x: int| gap_to(t, j, x) && lit_at(t, x, auto_elevate_name()) && ae_close2(t, x + 11)
}

pub open spec fn ae_slash(t: Seq<char>, j: int) -> bool {
    exists|x: int| gap_to(t, j, x) && lit_at(t, x, slash_sign()) && ae_name2(t, x + 1)
}

pub open spec fn ae_open2(t: Seq<char>, j: int) -> bool {
    exists|x: int| gap_to(t, j, x) && lit_at(t, x, lt_sign()) && ae_slash(t, x + 1)
}

pub open spec fn ae_true(t: Seq<char>, j: int) -> bool {
    exists|x: int| gap_to(t, j, x) && lit_at(t, x, true_text()) && ae_open2(t, x + 4)
}

pub open spec fn ae_close1(t: Seq<char>, j: int) -> bool {
    exists|x: int| gap_to(t, j, x) && lit_at(t, x, gt_sign()) && ae_true(t, x + 1)
}

pub open spec fn ae_name1(t: Seq<char>, j: int) -> bool {
    exists|x: int| gap_to(t, j, x) && lit_at(t, x, auto_elevate_name()) && ae_close1(t, x + 11)
}

/// The whole first pattern matches starting at the `<` at position `i`.
pub open spec fn auto_elevate_at(t: Seq<char>, i: int) -> bool {
    lit_at(t, i, lt_sign()) && ae_name1(t, i + 1)
}

/// The text contains an `autoElevate` element whose content is `true`.
pub open spec fn has_auto_elevate(t: Seq<char>) -> bool {
    exists|i: int| auto_elevate_at(t, i)
}

// Stages of the second pattern,
// `<requestedExecutionLevel ... level="requireAdministrator"`, where between
// the tag name and the attribute any characters other than `>` may appear.
pub open spec fn ra_value(t: Seq<char>, j: int) -> bool {
    exists|x: int| gap_to(t, j, x) && lit_at(t, x, require_admin_quoted())
}

pub open spec fn ra_eq(t: Seq<char>, j: int) -> bool {
    exists|x: int| gap_to(t, j, x) && lit_at(t, x, eq_sign()) && ra_value(t, x + 1)
}

/// `level="requireAdministrator"` (with whitespace runs around `=`) occurs
/// with the attribute name exactly at position `j`.
pub open spec fn level_at(t: Seq<char>, j: int) -> bool {
    lit_at(t, j, level_attr()) && ra_eq(t, j + 5)
}

/// Somewhere at or after `j`, before any `>`, the `level` attribute with the
/// required value occurs.
pub open spec fn attr_scan(t: Seq<char>, j: int) -> bool {
    exists|m: int| j <= m && (forall|k: int| j <= k < m ==> t[k] != '>') && level_at(t, m)
}

pub open spec fn ra_name(t: Seq<char>, j: int) -> bool {
    exists|x: int| gap_to(t, j, x) && lit_at(t, x, req_level_name()) && attr_scan(t, x + 23)
}

/// The whole second pattern matches starting at the `<` at position `i`.
pub open spec fn req_admin_at(t: Seq<char>, i: int) -> bool {
    lit_at(t, i, lt_sign()) && ra_name(t, i + 1)
}

/// The text contains a `requestedExecutionLevel` tag carrying
/// `level="requireAdministrator"`.
pub open spec fn has_require_admin(t: Seq<char>) -> bool {
    exists|i: int| req_admin_at(t, i)
}

/// A manifest matches exactly when both patterns hold.
pub open spec fn manifest_matches_spec(t: Seq<char>) -> bool {
    has_auto_elevate(t) && has_require_admin(t)
}

/// Pattern matching is conjunctive: a text matches exactly when it contains
/// both the `autoElevate`-is-`true` element and the
/// `requestedExecutionLevel`-requires-administrator attribute; either alone
/// does not suffice.
pub proof fn lemma_match_conjunctive(t: Seq<char>)
    ensures
        manifest_matches_spec(t) == (has_auto_elevate(t) && has_require_admin(t)),
        !has_auto_elevate(t) ==> !manifest_matches_spec(t),
        !has_require_admin(t) ==> !manifest_matches_spec(t),
{
}

/// A literal's first character stands at its position.
proof fn lemma_lit_first(t: Seq<char>, x: int, w: Seq<char>)
    requires
        lit_at(t, x, w),
        w.len() > 0,
    ensures
        0 <= x < t.len() && t[x] == w[0],
{
    assert(t.subrange(x, x + w.len() as int)[0] == t[x]);
}

/// A whitespace run followed by a non-whitespace literal ends at the first
/// non-whitespace position: the gap length is forced.
proof fn lemma_stage_unique(t: Seq<char>, j: int, a: int, xw: int, w: Seq<char>)
    requires
        0 <= j <= a <= t.len(),
        all_spaces(t, j, a),
        a == t.len() || !is_space(t[a]),
        gap_to(t, j, xw),
        lit_at(t, xw, w),
        w.len() > 0,
        !is_space(w[0]),
    ensures
        xw == a,
{
    lemma_lit_first(t, xw, w);
    if xw < a {
        assert(is_space(t[xw]));
        assert(false);
    }
    if a < xw {
        assert(is_space(t[a]));
        assert(false);
    }
}

fn is_space_char(c: char) -> (b: bool)
    ensures
        b == is_space(c),
{
    c == ' ' || c == '\t' || c == '\n' || c == '\r' || c == '\u{b}' || c == '\u{c}'
}

/// First position at or after `j` holding a non-whitespace character.
fn skip_spaces(s: &str, j: usize, n: usize) -> (r: usize)
    requires
        n == s@.len(),
        j <= n,
    ensures
        j <= r <= n,
        all_spaces(s@, j as int, r as int),
        r == n || !is_space(s@[r as int]),
{
    let mut r = j;
    while r < n && is_space_char(s.get_char(r))
        invariant
            n == s@.len(),
            j <= r <= n,
            all_spaces(s@, j as int, r as int),
        decreases n - r,
    {
        r = r + 1;
    }
    r
}

/// Whether the characters of `w` occur at position `j` of `s`.
fn match_lit(s: &str, j: usize, n: usize, w: &str, wn: usize) -> (r: bool)
    requires
        n == s@.len(),
        j <= n,
        wn == w@.len(),
    ensures
        r == lit_at(s@, j as int, w@),
{
    if wn > n - j {
        return false;
    }
    let mut k: usize = 0;
    while k < wn
        invariant
            n == s@.len(),
            wn == w@.len(),
            j + wn <= n,
            0 <= k <= wn,
            forall|m: int| 0 <= m < k ==> s@[j + m] == w@[m],
        decreases wn - k,
    {
        if s.get_char(j + k) != w.get_char(k) {
            proof {
                if lit_at(s@, j as int, w@) {
                    assert(s@.subrange(j as int, j as int + wn as int)[k as int] == s@[j as int
                        + k as int]);
                    assert(false);
                }
            }
            return false;
        }
        k = k + 1;
    }
    proof {
        assert(s@.subrange(j as int, j as int + wn as int) =~= w@);
    }
    true
}

/// Skips the whitespace run at `j` and matches `w` right after it. Since `w`
/// begins with a non-whitespace character, any run length that lets `w` match
/// equals the maximal one, so `None` means no run length works.
fn gap_lit(s: &str, j: usize, n: usize, w: &str, wn: usize) -> (r: Option<usize>)
    requires
        n == s@.len(),
        j <= n,
        wn == w@.len(),
        wn > 0,
        !is_space(w@[0]),
    ensures
        match r {
            Some(x) => j <= x <= n && x + wn <= n && gap_to(s@, j as int, x as int) && lit_at(
                s@,
                x as int,
                w@,
            ) && (x == n || !is_space(s@[x as int])),
            None => forall|x2: int| !(gap_to(s@, j as int, x2) && lit_at(s@, x2, w@)),
        },
{
    let x = skip_spaces(s, j, n);
    if match_lit(s, x, n, w, wn) {
        Some(x)
    } else {
        proof {
            assert forall|x2: int| !(gap_to(s@, j as int, x2) && lit_at(s@, x2, w@)) by {
                if gap_to(s@, j as int, x2) && lit_at(s@, x2, w@) {
                    lemma_stage_unique(s@, j as int, x as int, x2, w@);
                }
            }
        }
        None
    }
}

fn ae_close2_exec(s: &str, n: usize, j: usize) -> (r: bool)
    requires
        n == s@.len(),
        j <= n,
    ensures
        r == ae_close2(s@, j as int),
{
    proof {
        reveal_strlit(">");
        assert(">"@ =~= gt_sign());
    }
    match gap_lit(s, j, n, ">", 1) {
        Some(x) => {
            proof {
                assert(gap_to(s@, j as int, x as int) && lit_at(s@, x as int, gt_sign()));
            }
            true
        },
        None => {
            proof {
                if ae_close2(s@, j as int) {
                    let x2 = choose|x2: int| gap_to(s@, j as int, x2) && lit_at(
                        s@,
                        x2,
                        gt_sign(),
                    );
                    assert(false);
                }
            }
            false
        },
    }
}

fn ae_name2_exec(s: &str, n: usize, j: usize) -> (r: bool)
    requires
        n == s@.len(),
        j <= n,
    ensures
        r == ae_name2(s@, j as int),
{
    proof {
        reveal_strlit("autoElevate");
        assert("autoElevate"@ =~= auto_elevate_name());
    }
    match gap_lit(s, j, n, "autoElevate", 11) {
        Some(x) => {
            let rest = ae_close2_exec(s, n, x + 11);
            proof {
                if rest {
                    assert(gap_to(s@, j as int, x as int) && lit_at(
                        s@,
                        x as int,
                        auto_elevate_name(),
                    ) && ae_close2(s@, x as int + 11));
                } else {
                    if ae_name2(s@, j as int) {
                        let x2 = choose|x2: int|
                            gap_to(s@, j as int, x2) && lit_at(s@, x2, auto_elevate_name())
                                && ae_close2(s@, x2 + 11);
                        lemma_stage_unique(s@, j as int, x as int, x2, auto_elevate_name());
                        assert(false);
                    }
                }
            }
            rest
        },
        None => {
            proof {
                if ae_name2(s@, j as int) {
                    let x2 = choose|x2: int|
                        gap_to(s@, j as int, x2) && lit_at(s@, x2, auto_elevate_name())
                            && ae_close2(s@, x2 + 11);
                    assert(false);
                }
            }
            false
        },
    }
}

fn ae_slash_exec(s: &str, n: usize, j: usize) -> (r: bool)
    requires
        n == s@.len(),
        j <= n,
    ensures
        r == ae_slash(s@, j as int),
{
    proof {
        reveal_strlit("/");
        assert("/"@ =~= slash_sign());
    }
    match gap_lit(s, j, n, "/", 1) {
        Some(x) => {
            let rest = ae_name2_exec(s, n, x + 1);
            proof {
                if rest {
                    assert(gap_to(s@, j as int, x as int) && lit_at(s@, x as int, slash_sign())
                        && ae_name2(s@, x as int + 1));
                } else {
                    if ae_slash(s@, j as int) {
                        let x2 = choose|x2: int|
                            gap_to(s@, j as int, x2) && lit_at(s@, x2, slash_sign()) && ae_name2(
                                s@,
                                x2 + 1,
                            );
                        lemma_stage_unique(s@, j as int, x as int, x2, slash_sign());
                        assert(false);
                    }
                }
            }
            rest
        },
        None => {
            proof {
                if ae_slash(s@, j as int) {
                    let x2 = choose|x2: int|
                        gap_to(s@, j as int, x2) && lit_at(s@, x2, slash_sign()) && ae_name2(
                            s@,
                            x2 + 1,
                        );
                    assert(false);
                }
            }
            false
        },
    }
}

fn ae_open2_exec(s: &str, n: usize, j: usize) -> (r: bool)
    requires
        n == s@.len(),
        j <= n,
    ensures
        r == ae_open2(s@, j as int),
{
    proof {
        reveal_strlit("<");
        assert("<"@ =~= lt_sign());
    }
    match gap_lit(s, j, n, "<", 1) {
        Some(x) => {
            let rest = ae_slash_exec(s, n, x + 1);
            proof {
                if rest {
                    assert(gap_to(s@, j as int, x as int) && lit_at(s@, x as int, lt_sign())
                        && ae_slash(s@, x as int + 1));
                } else {
                    if ae_open2(s@, j as int) {
                        let x2 = choose|x2: int|
                            gap_to(s@, j as int, x2) && lit_at(s@, x2, lt_sign()) && ae_slash(
                                s@,
                                x2 + 1,
                            );
                        lemma_stage_unique(s@, j as int, x as int, x2, lt_sign());
                        assert(false);
                    }
                }
            }
            rest
        },
        None => {
            proof {
                if ae_open2(s@, j as int) {
                    let x2 = choose|x2: int|
                        gap_to(s@, j as int, x2) && lit_at(s@, x2, lt_sign()) && ae_slash(
                            s@,
                            x2 + 1,
                        );
                    assert(false);
                }
            }
            false
        },
    }
}

fn ae_true_exec(s: &str, n: usize, j: usize) -> (r: bool)
    requires
        n == s@.len(),
        j <= n,
    ensures
        r == ae_true(s@, j as int),
{
    proof {
        reveal_strlit("true");
        assert("true"@ =~= true_text());
    }
    match gap_lit(s, j, n, "true", 4) {
        Some(x) => {
            let rest = ae_open2_exec(s, n, x + 4);
            proof {
                if rest {
                    assert(gap_to(s@, j as int, x as int) && lit_at(s@, x as int, true_text())
                        && ae_open2(s@, x as int + 4));
                } else {
                    if ae_true(s@, j as int) {
                        let x2 = choose|x2: int|
                            gap_to(s@, j as int, x2) && lit_at(s@, x2, true_text()) && ae_open2(
                                s@,
                                x2 + 4,
                            );
                        lemma_stage_unique(s@, j as int, x as int, x2, true_text());
                        assert(false);
                    }
                }
            }
            rest
        },
        None => {
            proof {
                if ae_true(s@, j as int) {
                    let x2 = choose|x2: int|
                        gap_to(s@, j as int, x2) && lit_at(s@, x2, true_text()) && ae_open2(
                            s@,
                            x2 + 4,
                        );
                    assert(false);
                }
            }
            false
        },
    }
}

fn ae_close1_exec(s: &str, n: usize, j: usize) -> (r: bool)
    requires
        n == s@.len(),
        j <= n,
    ensures
        r == ae_close1(s@, j as int),
{
    proof {
        reveal_strlit(">");
        assert(">"@ =~= gt_sign());
    }
    match gap_lit(s, j, n, ">", 1) {
        Some(x) => {
            let rest = ae_true_exec(s, n, x + 1);
            proof {
                if rest {
                    assert(gap_to(s@, j as int, x as int) && lit_at(s@, x as int, gt_sign())
                        && ae_true(s@, x as int + 1));
                } else {
                    if ae_close1(s@, j as int) {
                        let x2 = choose|x2: int|
                            gap_to(s@, j as int, x2) && lit_at(s@, x2, gt_sign()) && ae_true(
                                s@,
                                x2 + 1,
                            );
                        lemma_stage_unique(s@, j as int, x as int, x2, gt_sign());
                        assert(false);
                    }
                }
            }
            rest
        },
        None => {
            proof {
                if ae_close1(s@, j as int) {
                    let x2 = choose|x2: int|
                        gap_to(s@, j as int, x2) && lit_at(s@, x2, gt_sign()) && ae_true(
                            s@,
                            x2 + 1,
                        );
                    assert(false);
                }
            }
            false
        },
    }
}

fn ae_name1_exec(s: &str, n: usize, j: usize) -> (r: bool)
    requires
        n == s@.len(),
        j <= n,
    ensures
        r == ae_name1(s@, j as int),
{
    proof {
        reveal_strlit("autoElevate");
        assert("autoElevate"@ =~= auto_elevate_name());
    }
    match gap_lit(s, j, n, "autoElevate", 11) {
        Some(x) => {
            let rest = ae_close1_exec(s, n, x + 11);
            proof {
                if rest {
                    assert(gap_to(s@, j as int, x as int) && lit_at(
                        s@,
                        x as int,
                        auto_elevate_name(),
                    ) && ae_close1(s@, x as int + 11));
                } else {
                    if ae_name1(s@, j as int) {
                        let x2 = choose|x2: int|
                            gap_to(s@, j as int, x2) && lit_at(s@, x2, auto_elevate_name())
                                && ae_close1(s@, x2 + 11);
                        lemma_stage_unique(s@, j as int, x as int, x2, auto_elevate_name());
                        assert(false);
                    }
                }
            }
            rest
        },
        None => {
            proof {
                if ae_name1(s@, j as int) {
                    let x2 = choose|x2: int|
                        gap_to(s@, j as int, x2) && lit_at(s@, x2, auto_elevate_name())
                            && ae_close1(s@, x2 + 11);
                    assert(false);
                }
            }
            false
        },
    }
}

/// Whether the first pattern matches with its opening `<` at position `i`.
fn auto_elevate_at_exec(s: &str, n: usize, i: usize) -> (r: bool)
    requires
        n == s@.len(),
        i <= n,
    ensures
        r == auto_elevate_at(s@, i as int),
{
    proof {
        reveal_strlit("<");
        assert("<"@ =~= lt_sign());
    }
    if !match_lit(s, i, n, "<", 1) {
        return false;
    }
    ae_name1_exec(s, n, i + 1)
}

/// Whether the text contains the `autoElevate`-is-`true` element.
fn find_auto_elevate(s: &str, n: usize) -> (r: bool)
    requires
        n == s@.len(),
    ensures
        r == has_auto_elevate(s@),
{
    let mut i: usize = 0;
    while i < n
        invariant
            n == s@.len(),
            0 <= i <= n,
            forall|k: int| 0 <= k < i ==> !auto_elevate_at(s@, k),
        decreases n - i,
    {
        if auto_elevate_at_exec(s, n, i) {
            return true;
        }
        i = i + 1;
    }
    proof {
        assert forall|k: int| !auto_elevate_at(s@, k) by {
            if auto_elevate_at(s@, k) {
                assert(lit_at(s@, k, lt_sign()));
            }
        }
    }
    false
}

fn ra_value_exec(s: &str, n: usize, j: usize) -> (r: bool)
    requires
        n == s@.len(),
        j <= n,
    ensures
        r == ra_value(s@, j as int),
{
    proof {
        reveal_strlit("\"requireAdministrator\"");
        assert("\"requireAdministrator\""@ =~= require_admin_quoted());
    }
    match gap_lit(s, j, n, "\"requireAdministrator\"", 22) {
        Some(x) => {
            proof {
                assert(gap_to(s@, j as int, x as int) && lit_at(
                    s@,
                    x as int,
                    require_admin_quoted(),
                ));
            }
            true
        },
        None => {
            proof {
                if ra_value(s@, j as int) {
                    let x2 = choose|x2: int|
                        gap_to(s@, j as int, x2) && lit_at(s@, x2, require_admin_quoted());
                    assert(false);
                }
            }
            false
        },
    }
}

fn ra_eq_exec(s: &str, n: usize, j: usize) -> (r: bool)
    requires
        n == s@.len(),
        j <= n,
    ensures
        r == ra_eq(s@, j as int),
{
    proof {
        reveal_strlit("=");
        assert("="@ =~= eq_sign());
    }
    match gap_lit(s, j, n, "=", 1) {
        Some(x) => {
            let rest = ra_value_exec(s, n, x + 1);
            proof {
                if rest {
                    assert(gap_to(s@, j as int, x as int) && lit_at(s@, x as int, eq_sign())
                        && ra_value(s@, x as int + 1));
                } else {
                    if ra_eq(s@, j as int) {
                        let x2 = choose|x2: int|
                            gap_to(s@, j as int, x2) && lit_at(s@, x2, eq_sign()) && ra_value(
                                s@,
                                x2 + 1,
                            );
                        lemma_stage_unique(s@, j as int, x as int, x2, eq_sign());
                        assert(false);
                    }
                }
            }
            rest
        },
        None => {
            proof {
                if ra_eq(s@, j as int) {
                    let x2 = choose|x2: int|
                        gap_to(s@, j as int, x2) && lit_at(s@, x2, eq_sign()) && ra_value(
                            s@,
                            x2 + 1,
                        );
                    assert(false);
                }
            }
            false
        },
    }
}

/// Whether `level="requireAdministrator"` occurs with the attribute name at
/// exactly position `j`.
fn level_at_exec(s: &str, n: usize, j: usize) -> (r: bool)
    requires
        n == s@.len(),
        j <= n,
    ensures
        r == level_at(s@, j as int),
{
    proof {
        reveal_strlit("level");
        assert("level"@ =~= level_attr());
    }
    if !match_lit(s, j, n, "level", 5) {
        return false;
    }
    ra_eq_exec(s, n, j + 5)
}

/// Scans forward from `j`, staying before any `>`, for the `level` attribute.
fn attr_scan_exec(s: &str, n: usize, j: usize) -> (r: bool)
    requires
        n == s@.len(),
        j <= n,
    ensures
        r == attr_scan(s@, j as int),
{
    let mut m = j;
    while m < n
        invariant
            n == s@.len(),
            j <= m <= n,
            forall|k: int| j <= k < m ==> s@[k] != '>',
            forall|mm: int| j <= mm < m ==> !level_at(s@, mm),
        decreases n - m,
    {
        if level_at_exec(s, n, m) {
            proof {
                assert(j <= m as int && (forall|k: int| j <= k < m as int ==> s@[k] != '>')
                    && level_at(s@, m as int));
            }
            return true;
        }
        if s.get_char(m) == '>' {
            proof {
                if attr_scan(s@, j as int) {
                    let mw = choose|mw: int|
                        j <= mw && (forall|k: int| j <= k < mw ==> s@[k] != '>') && level_at(
                            s@,
                            mw,
                        );
                    if mw > m as int {
                        assert(s@[m as int] != '>');
                        assert(false);
                    }
                    assert(false);
                }
            }
            return false;
        }
        m = m + 1;
    }
    proof {
        if attr_scan(s@, j as int) {
            let mw = choose|mw: int|
                j <= mw && (forall|k: int| j <= k < mw ==> s@[k] != '>') && level_at(s@, mw);
            assert(lit_at(s@, mw, level_attr()));
            assert(false);
        }
    }
    false
}

fn ra_name_exec(s: &str, n: usize, j: usize) -> (r: bool)
    requires
        n == s@.len(),
        j <= n,
    ensures
        r == ra_name(s@, j as int),
{
    proof {
        reveal_strlit("requestedExecutionLevel");
        assert("requestedExecutionLevel"@ =~= req_level_name());
    }
    match gap_lit(s, j, n, "requestedExecutionLevel", 23) {
        Some(x) => {
            let rest = attr_scan_exec(s, n, x + 23);
            proof {
                if rest {
                    assert(gap_to(s@, j as int, x as int) && lit_at(s@, x as int, req_level_name())
                        && attr_scan(s@, x as int + 23));
                } else {
                    if ra_name(s@, j as int) {
                        let x2 = choose|x2: int|
                            gap_to(s@, j as int, x2) && lit_at(s@, x2, req_level_name())
                                && attr_scan(s@, x2 + 23);
                        lemma_stage_unique(s@, j as int, x as int, x2, req_level_name());
                        assert(false);
                    }
                }
            }
            rest
        },
        None => {
            proof {
                if ra_name(s@, j as int) {
                    let x2 = choose|x2: int|
                        gap_to(s@, j as int, x2) && lit_at(s@, x2, req_level_name()) && attr_scan(
                            s@,
                            x2 + 23,
                        );
                    assert(false);
                }
            }
            false
        },
    }
}

/// Whether the second pattern matches with its opening `<` at position `i`.
fn req_admin_at_exec(s: &str, n: usize, i: usize) -> (r: bool)
    requires
        n == s@.len(),
        i <= n,
    ensures
        r == req_admin_at(s@, i as int),
{
    proof {
        reveal_strlit("<");
        assert("<"@ =~= lt_sign());
    }
    if !match_lit(s, i, n, "<", 1) {
        return false;
    }
    ra_name_exec(s, n, i + 1)
}

/// Whether the text contains the requires-administrator attribute.
fn find_req_admin(s: &str, n: usize) -> (r: bool)
    requires
        n == s@.len(),
    ensures
        r == has_require_admin(s@),
{
    let mut i: usize = 0;
    while i < n
        invariant
            n == s@.len(),
            0 <= i <= n,
            forall|k: int| 0 <= k < i ==> !req_admin_at(s@, k),
        decreases n - i,
    {
        if req_admin_at_exec(s, n, i) {
            return true;
        }
        i = i + 1;
    }
    proof {
        assert forall|k: int| !req_admin_at(s@, k) by {
            if req_admin_at(s@, k) {
                assert(lit_at(s@, k, lt_sign()));
            }
        }
    }
    false
}

/// Tests the manifest text against both patterns; a file is reported only
/// when both hold.
pub fn manifest_matches(text: &str) -> (r: bool)
    ensures
        r == manifest_matches_spec(text@),
{
    let n = text.unicode_len();
    if !find_auto_elevate(text, n) {
        return false;
    }
    find_req_admin(text, n)
}

} // verus!
