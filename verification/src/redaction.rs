//! Structured-identifier redaction.
//!
//! Three patterns are applied in a fixed order — national-identifier
//! digit groups, payment-card digit runs, then email-like strings —
//! each pass replacing every match with the marker token. A match is
//! found by a left-to-right scan; matched text never overlaps.
//!
//! The word alphabet is deliberately ASCII (letters, digits,
//! underscore): the identifiers being redacted are ASCII shapes, and a
//! character outside that alphabet counts as a non-word neighbour, so
//! an adjacent accented letter does not suppress a match.

use vstd::prelude::*;

use crate::safety_profile::ExcavationSafetyProfile;

verus! {

/// The token every match is replaced with.
pub open spec fn marker() -> Seq<char> {
    "[REDACTED]"@
}

pub open spec fn is_digit(c: char) -> bool {
    48 <= c as u32 && c as u32 <= 57
}

pub open spec fn is_alpha(c: char) -> bool {
    (97 <= c as u32 && c as u32 <= 122) || (65 <= c as u32 && c as u32 <= 90)
}

/// A word character: ASCII letter, digit or underscore; word
/// boundaries are transitions between word and non-word characters.
/// The alphabet is intentionally ASCII-only — see the module note.
pub open spec fn is_word_char(c: char) -> bool {
    is_digit(c) || is_alpha(c) || c == '_'
}

/// Characters allowed in the local part of an email-like string.
pub open spec fn is_local_char(c: char) -> bool {
    is_alpha(c) || is_digit(c) || c == '.' || c == '_' || c == '%' || c == '+' || c == '-'
}

/// Characters allowed in the domain part of an email-like string.
pub open spec fn is_domain_char(c: char) -> bool {
    is_alpha(c) || is_digit(c) || c == '.' || c == '-'
}

/// A word boundary sits at position `i` when exactly one side of the
/// position holds a word character (the outside of the text counts as
/// non-word).
pub open spec fn boundary(s: Seq<char>, i: int) -> bool {
    (i > 0 && i <= s.len() && is_word_char(s[i - 1])) != (0 <= i < s.len() && is_word_char(s[i]))
}

/// A national-identifier-like group at `i`: three, two and four digits
/// separated by dashes, between word boundaries.
pub open spec fn ssn_at(s: Seq<char>, i: int) -> bool {
    &&& 0 <= i && i + 11 <= s.len()
    &&& boundary(s, i) && boundary(s, i + 11)
    &&& is_digit(s[i]) && is_digit(s[i + 1]) && is_digit(s[i + 2])
    &&& s[i + 3] == '-'
    &&& is_digit(s[i + 4]) && is_digit(s[i + 5])
    &&& s[i + 6] == '-'
    &&& is_digit(s[i + 7]) && is_digit(s[i + 8]) && is_digit(s[i + 9]) && is_digit(s[i + 10])
}

/// A payment-card-like run at `i`: exactly sixteen digits between word
/// boundaries.
pub open spec fn card_at(s: Seq<char>, i: int) -> bool {
    &&& 0 <= i && i + 16 <= s.len()
    &&& boundary(s, i) && boundary(s, i + 16)
    &&& forall|k: int| i <= k < i + 16 ==> is_digit(#[trigger] s[k])
}

/// The three character classes the email matcher runs over.
#[derive(Clone, Copy, PartialEq, Eq, Structural, Debug)]
pub enum CharClass {
    Local,
    Domain,
    Letter,
}

pub open spec fn in_class(c: char, cls: CharClass) -> bool {
    match cls {
        CharClass::Local => is_local_char(c),
        CharClass::Domain => is_domain_char(c),
        CharClass::Letter => is_alpha(c),
    }
}

/// End of the maximal run of `cls` characters starting at `i`.
pub open spec fn run_end(s: Seq<char>, i: int, cls: CharClass) -> int
    decreases s.len() - i,
    when 0 <= i <= s.len()
{
    if i < s.len() && in_class(s[i], cls) {
        run_end(s, i + 1, cls)
    } else {
        i
    }
}

/// A dot at `p` starts a valid top-level-domain tail: at least two
/// letters, ending at a word boundary.
pub open spec fn tld_ok(s: Seq<char>, p: int) -> bool {
    let q = run_end(s, p + 1, CharClass::Letter);
    q - (p + 1) >= 2 && (q == s.len() || !is_word_char(s[q]))
}

/// The rightmost dot in `(lo, hi)` whose tail is a valid top-level
/// domain, searched the way a greedy matcher backtracks; -1 if none.
pub open spec fn dot_choice(s: Seq<char>, lo: int, hi: int) -> int
    decreases hi - lo,
    when lo <= hi
{
    if hi <= lo + 1 {
        -1
    } else if s[hi - 1] == '.' && tld_ok(s, hi - 1) {
        hi - 1
    } else {
        dot_choice(s, lo, hi - 1)
    }
}

/// End of the email-like match starting at `i`, or -1: a word
/// boundary, a maximal run of local characters, an '@', then a domain
/// run split at the rightmost workable dot into domain and top-level
/// domain.
pub open spec fn email_end_at(s: Seq<char>, i: int) -> int {
    if !(0 <= i < s.len() && boundary(s, i) && is_local_char(s[i])) {
        -1
    } else {
        let j = run_end(s, i, CharClass::Local);
        if j >= s.len() || s[j] != '@' {
            -1
        } else {
            let lo = j + 1;
            let hi = run_end(s, lo, CharClass::Domain);
            let p = dot_choice(s, lo, hi);
            if p < 0 {
                -1
            } else {
                run_end(s, p + 1, CharClass::Letter)
            }
        }
    }
}

/// The redaction patterns, in the order the passes run.
#[derive(Clone, Copy, PartialEq, Eq, Structural, Debug)]
pub enum RedactPattern {
    Ssn,
    Card,
    Email,
}

/// End of the match of `pat` starting exactly at `i`, or -1.
pub open spec fn match_end(pat: RedactPattern, s: Seq<char>, i: int) -> int {
    match pat {
        RedactPattern::Ssn => if ssn_at(s, i) {
            i + 11
        } else {
            -1
        },
        RedactPattern::Card => if card_at(s, i) {
            i + 16
        } else {
            -1
        },
        RedactPattern::Email => email_end_at(s, i),
    }
}

/// One replace-all pass of `pat` over `s`, from position `i` on: copy
/// characters until a match starts, emit the marker over each match,
/// continue after it.
pub open spec fn scan(pat: RedactPattern, s: Seq<char>, i: int) -> Seq<char>
    decreases s.len() - i,
    when 0 <= i
{
    if i >= s.len() {
        Seq::empty()
    } else {
        let e = match_end(pat, s, i);
        if i < e <= s.len() {
            marker() + scan(pat, s, e)
        } else {
            seq![s[i]] + scan(pat, s, i + 1)
        }
    }
}

/// All three passes, in order.
pub open spec fn redact_spec(s: Seq<char>) -> Seq<char> {
    scan(
        RedactPattern::Email,
        scan(RedactPattern::Card, scan(RedactPattern::Ssn, s, 0), 0),
        0,
    )
}

proof fn lemma_run_end_props(s: Seq<char>, i: int, cls: CharClass)
    requires
        0 <= i <= s.len(),
    ensures
        i <= run_end(s, i, cls) <= s.len(),
        forall|k: int| i <= k < run_end(s, i, cls) ==> in_class(#[trigger] s[k], cls),
        run_end(s, i, cls) < s.len() ==> !in_class(s[run_end(s, i, cls)], cls),
    decreases s.len() - i,
{
    if i < s.len() && in_class(s[i], cls) {
        lemma_run_end_props(s, i + 1, cls);
    }
}

proof fn lemma_run_end_eq(s: Seq<char>, i: int, m: int, cls: CharClass)
    requires
        0 <= i <= m <= s.len(),
        forall|k: int| i <= k < m ==> in_class(#[trigger] s[k], cls),
        m == s.len() || !in_class(s[m], cls),
    ensures
        run_end(s, i, cls) == m,
    decreases m - i,
{
    if i < m {
        lemma_run_end_eq(s, i + 1, m, cls);
    }
}

proof fn lemma_dot_choice_bounds(s: Seq<char>, lo: int, hi: int)
    requires
        0 <= lo <= hi <= s.len(),
    ensures
        dot_choice(s, lo, hi) == -1 || lo < dot_choice(s, lo, hi) < hi,
    decreases hi - lo,
{
    if hi > lo + 1 && !(s[hi - 1] == '.' && tld_ok(s, hi - 1)) {
        lemma_dot_choice_bounds(s, lo, hi - 1);
    }
}

proof fn lemma_dot_choice_found(s: Seq<char>, lo: int, hi: int)
    requires
        0 <= lo <= hi <= s.len(),
        dot_choice(s, lo, hi) != -1,
    ensures
        lo < dot_choice(s, lo, hi) < hi,
        s[dot_choice(s, lo, hi)] == '.',
        tld_ok(s, dot_choice(s, lo, hi)),
    decreases hi - lo,
{
    if hi > lo + 1 && !(s[hi - 1] == '.' && tld_ok(s, hi - 1)) {
        lemma_dot_choice_found(s, lo, hi - 1);
    }
}

proof fn lemma_dot_choice_none(s: Seq<char>, lo: int, hi: int)
    requires
        0 <= lo <= hi <= s.len(),
        dot_choice(s, lo, hi) == -1,
    ensures
        forall|pp: int| lo < pp < hi ==> !(s[pp] == '.' && #[trigger] tld_ok(s, pp)),
    decreases hi - lo,
{
    if hi > lo + 1 {
        lemma_dot_choice_none(s, lo, hi - 1);
    }
}

/// What every successful match guarantees: it is non-empty, bounded,
/// starts at a word boundary on a pattern-specific first character,
/// ends in a word character, and is followed by a non-word character
/// or the end of the text.
proof fn lemma_match_facts(q: RedactPattern, s: Seq<char>, i: int)
    requires
        0 <= i <= s.len(),
        match_end(q, s, i) != -1,
    ensures
        i < match_end(q, s, i) <= s.len(),
        boundary(s, i),
        is_word_char(s[match_end(q, s, i) - 1]),
        match_end(q, s, i) == s.len() || !is_word_char(s[match_end(q, s, i)]),
        (q == RedactPattern::Ssn || q == RedactPattern::Card) ==> is_digit(s[i]),
        q == RedactPattern::Email ==> is_local_char(s[i]),
{
    let e = match_end(q, s, i);
    match q {
        RedactPattern::Ssn => {
            assert(is_word_char(s[i + 10]));
        },
        RedactPattern::Card => {
            assert(is_digit(s[i + 15]));
        },
        RedactPattern::Email => {
            let j = run_end(s, i, CharClass::Local);
            lemma_run_end_props(s, i, CharClass::Local);
            let lo = j + 1;
            let hi = run_end(s, lo, CharClass::Domain);
            lemma_run_end_props(s, lo, CharClass::Domain);
            let p = dot_choice(s, lo, hi);
            lemma_dot_choice_found(s, lo, hi);
            lemma_run_end_props(s, p + 1, CharClass::Letter);
            assert(e == run_end(s, p + 1, CharClass::Letter));
            assert(in_class(s[e - 1], CharClass::Letter));
        },
    }
}

/// Two positions see the same text: the suffixes are identical and the
/// immediate left neighbours agree on word-character status.
spec fn suffix_aligned(t1: Seq<char>, i1: int, t2: Seq<char>, i2: int) -> bool {
    &&& 0 <= i1 <= t1.len()
    &&& 0 <= i2 <= t2.len()
    &&& t1.len() - i1 == t2.len() - i2
    &&& (forall|k: int| i1 <= k < t1.len() ==> #[trigger] t1[k] == t2[k - i1 + i2])
    &&& ((i1 > 0 && is_word_char(t1[i1 - 1])) == (i2 > 0 && is_word_char(t2[i2 - 1])))
}

proof fn lemma_boundary_shift(t1: Seq<char>, i1: int, t2: Seq<char>, i2: int, d: int)
    requires
        suffix_aligned(t1, i1, t2, i2),
        0 <= d <= t1.len() - i1,
    ensures
        boundary(t1, i1 + d) == boundary(t2, i2 + d),
{
}

proof fn lemma_run_end_shift(
    t1: Seq<char>,
    i1: int,
    t2: Seq<char>,
    i2: int,
    d: int,
    cls: CharClass,
)
    requires
        suffix_aligned(t1, i1, t2, i2),
        0 <= d <= t1.len() - i1,
    ensures
        run_end(t1, i1 + d, cls) - i1 == run_end(t2, i2 + d, cls) - i2,
    decreases t1.len() - i1 - d,
{
    if i1 + d < t1.len() && in_class(t1[i1 + d], cls) {
        lemma_run_end_shift(t1, i1, t2, i2, d + 1, cls);
    }
}

proof fn lemma_tld_shift(t1: Seq<char>, i1: int, t2: Seq<char>, i2: int, d: int)
    requires
        suffix_aligned(t1, i1, t2, i2),
        0 <= d < t1.len() - i1,
    ensures
        tld_ok(t1, i1 + d) == tld_ok(t2, i2 + d),
{
    lemma_run_end_shift(t1, i1, t2, i2, d + 1, CharClass::Letter);
    lemma_run_end_props(t1, i1 + d + 1, CharClass::Letter);
    lemma_run_end_props(t2, i2 + d + 1, CharClass::Letter);
}

proof fn lemma_dot_shift(t1: Seq<char>, i1: int, t2: Seq<char>, i2: int, dlo: int, dhi: int)
    requires
        suffix_aligned(t1, i1, t2, i2),
        0 <= dlo <= dhi <= t1.len() - i1,
    ensures
        (dot_choice(t1, i1 + dlo, i1 + dhi) == -1) == (dot_choice(t2, i2 + dlo, i2 + dhi) == -1),
        dot_choice(t1, i1 + dlo, i1 + dhi) != -1 ==> dot_choice(t1, i1 + dlo, i1 + dhi) - i1
            == dot_choice(t2, i2 + dlo, i2 + dhi) - i2,
    decreases dhi - dlo,
{
    if dhi > dlo + 1 {
        lemma_tld_shift(t1, i1, t2, i2, dhi - 1);
        if !(t1[i1 + dhi - 1] == '.' && tld_ok(t1, i1 + dhi - 1)) {
            lemma_dot_shift(t1, i1, t2, i2, dlo, dhi - 1);
        }
    }
}

/// Matching is shift-invariant: at aligned positions of two texts with
/// identical suffixes, a pattern matches in one exactly as in the
/// other.
proof fn lemma_match_shift(
    q: RedactPattern,
    t1: Seq<char>,
    i1: int,
    t2: Seq<char>,
    i2: int,
    d: int,
)
    requires
        suffix_aligned(t1, i1, t2, i2),
        0 <= d <= t1.len() - i1,
    ensures
        (match_end(q, t1, i1 + d) == -1) == (match_end(q, t2, i2 + d) == -1),
        match_end(q, t1, i1 + d) != -1 ==> match_end(q, t1, i1 + d) - i1 == match_end(
            q,
            t2,
            i2 + d,
        ) - i2,
{
    let n = t1.len() - i1;
    match q {
        RedactPattern::Ssn => {
            lemma_boundary_shift(t1, i1, t2, i2, d);
            if d + 11 <= n {
                lemma_boundary_shift(t1, i1, t2, i2, d + 11);
                assert forall|k: int| i1 + d <= k < i1 + d + 11 implies #[trigger] t1[k] == t2[k
                    - i1 + i2] by {}
                assert(ssn_at(t1, i1 + d) == ssn_at(t2, i2 + d));
            }
        },
        RedactPattern::Card => {
            lemma_boundary_shift(t1, i1, t2, i2, d);
            if d + 16 <= n {
                lemma_boundary_shift(t1, i1, t2, i2, d + 16);
                if card_at(t1, i1 + d) {
                    assert forall|k: int| i2 + d <= k < i2 + d + 16 implies is_digit(
                        #[trigger] t2[k],
                    ) by {
                        assert(t2[k] == t1[i1 + (k - i2)]);
                    }
                }
                if card_at(t2, i2 + d) {
                    assert forall|k: int| i1 + d <= k < i1 + d + 16 implies is_digit(
                        #[trigger] t1[k],
                    ) by {
                        assert(t1[k] == t2[i2 + (k - i1)]);
                    }
                }
            }
        },
        RedactPattern::Email => {
            lemma_boundary_shift(t1, i1, t2, i2, d);
            if d < n && boundary(t1, i1 + d) && is_local_char(t1[i1 + d]) {
                lemma_run_end_shift(t1, i1, t2, i2, d, CharClass::Local);
                lemma_run_end_props(t1, i1 + d, CharClass::Local);
                let j1 = run_end(t1, i1 + d, CharClass::Local);
                let dj = j1 - i1;
                if j1 < t1.len() && t1[j1] == '@' {
                    lemma_run_end_shift(t1, i1, t2, i2, dj + 1, CharClass::Domain);
                    lemma_run_end_props(t1, j1 + 1, CharClass::Domain);
                    let h1 = run_end(t1, j1 + 1, CharClass::Domain);
                    lemma_dot_shift(t1, i1, t2, i2, dj + 1, h1 - i1);
                    let p1 = dot_choice(t1, j1 + 1, h1);
                    lemma_dot_choice_bounds(t1, j1 + 1, h1);
                    if p1 >= 0 {
                        lemma_dot_choice_found(t1, j1 + 1, h1);
                        lemma_run_end_shift(t1, i1, t2, i2, p1 - i1 + 1, CharClass::Letter);
                        assert(email_end_at(t1, i1 + d) != -1);
                        assert(email_end_at(t2, i2 + d) != -1);
                    } else {
                        assert(run_end(t2, i2 + d, CharClass::Local) == i2 + dj);
                        assert(dot_choice(t2, i2 + dj + 1, i2 + (h1 - i1)) == -1);
                    }
                }
            }
        },
    }
}

/// How a character run behaves across a cut: up to the cut the two
/// texts agree and the cut character belongs to no class, so the run in
/// the rewritten text stops at the cut at the latest; if it stops
/// earlier the source run stops at the same relative place, and if it
/// reaches the cut the source run reaches at least as far.
proof fn lemma_run_cut(
    y: Seq<char>,
    j0: int,
    s: Seq<char>,
    k0: int,
    c: int,
    off: int,
    cls: CharClass,
)
    requires
        0 <= j0,
        0 <= k0,
        0 <= off <= c,
        j0 + c < y.len(),
        k0 + c <= s.len(),
        forall|m: int| j0 <= m < j0 + c ==> #[trigger] y[m] == s[m - j0 + k0],
        y[j0 + c] == '[',
    ensures
        run_end(y, j0 + off, cls) <= j0 + c,
        run_end(y, j0 + off, cls) < j0 + c ==> run_end(s, k0 + off, cls) - k0 == run_end(
            y,
            j0 + off,
            cls,
        ) - j0,
        run_end(y, j0 + off, cls) == j0 + c ==> run_end(s, k0 + off, cls) >= k0 + c,
    decreases c - off,
{
    lemma_run_end_props(s, k0 + off, cls);
    if off < c {
        if in_class(y[j0 + off], cls) {
            lemma_run_cut(y, j0, s, k0, c, off + 1, cls);
        }
    } else {
        assert(run_end(y, j0 + c, cls) == j0 + c);
    }
}

/// A match seen after a rewrite projects back onto the source text: if
/// the two agree from the match start up to a cut, the rewrite holds
/// the marker's opening bracket at the cut, and the source holds a
/// fresh match of the scanned pattern there, then whatever matched in
/// the rewrite also matches in the source at the aligned position.
proof fn lemma_match_project(
    q: RedactPattern,
    p: RedactPattern,
    y: Seq<char>,
    j: int,
    s: Seq<char>,
    k: int,
    c: int,
)
    requires
        0 <= j <= y.len(),
        0 <= k <= s.len(),
        0 <= c,
        j + c < y.len(),
        k + c < s.len(),
        forall|m: int| j <= m < j + c ==> #[trigger] y[m] == s[m - j + k],
        ((j > 0 && is_word_char(y[j - 1])) == (k > 0 && is_word_char(s[k - 1]))),
        y[j + c] == '[',
        match_end(p, s, k + c) != -1,
        match_end(q, y, j) != -1,
    ensures
        match_end(q, s, k) != -1,
{
    lemma_match_facts(p, s, k + c);
    lemma_match_facts(q, y, j);
    match q {
        RedactPattern::Ssn => {
            assert(c >= 11);
            assert(boundary(s, k));
            if 11 == c {
                assert(is_word_char(s[k + 10]));
                assert(!is_word_char(s[k + 11]));
            }
            assert(ssn_at(s, k));
        },
        RedactPattern::Card => {
            assert(is_digit(y[j + (if c < 16 { c } else { 0 })]));
            assert(c >= 16);
            assert forall|m: int| k <= m < k + 16 implies is_digit(#[trigger] s[m]) by {
                assert(s[m] == y[j + (m - k)]);
            }
            assert(boundary(s, k));
            if 16 == c {
                assert(is_word_char(s[k + 15]));
                assert(!is_word_char(s[k + 16]));
            }
            assert(card_at(s, k));
        },
        RedactPattern::Email => {
            assert(c > 0);
            assert(boundary(s, k) && is_local_char(s[k]));
            lemma_run_cut(y, j, s, k, c, 0, CharClass::Local);
            let jj = run_end(y, j, CharClass::Local);
            lemma_run_end_props(y, j, CharClass::Local);
            assert(jj < j + c);
            let kk = k + (jj - j);
            assert(run_end(s, k, CharClass::Local) == kk);
            assert(s[kk] == y[jj]);
            assert(s[kk] == '@');
            let lo_y = jj + 1;
            let lo_s = kk + 1;
            lemma_run_cut(y, j, s, k, c, lo_y - j, CharClass::Domain);
            let hi_y = run_end(y, lo_y, CharClass::Domain);
            lemma_run_end_props(y, lo_y, CharClass::Domain);
            let hi_s = run_end(s, lo_s, CharClass::Domain);
            lemma_run_end_props(s, lo_s, CharClass::Domain);
            let p_y = dot_choice(y, lo_y, hi_y);
            lemma_dot_choice_bounds(y, lo_y, hi_y);
            assert(p_y != -1);
            lemma_dot_choice_found(y, lo_y, hi_y);
            let p_s = k + (p_y - j);
            assert(s[p_s] == y[p_y]);
            lemma_run_cut(y, j, s, k, c, p_y + 1 - j, CharClass::Letter);
            let t_y = run_end(y, p_y + 1, CharClass::Letter);
            lemma_run_end_props(y, p_y + 1, CharClass::Letter);
            assert(tld_ok(y, p_y));
            if t_y < j + c {
                assert(run_end(s, p_s + 1, CharClass::Letter) == k + (t_y - j));
                assert(!is_word_char(y[t_y]));
                assert(s[k + (t_y - j)] == y[t_y]);
                assert(tld_ok(s, p_s));
            } else {
                assert(t_y == j + c);
                assert(is_word_char(s[k + c - 1]));
                assert(!is_word_char(s[k + c]));
                assert(!is_alpha(s[k + c]));
                assert forall|m: int| p_s + 1 <= m < k + c implies in_class(
                    #[trigger] s[m],
                    CharClass::Letter,
                ) by {
                    assert(s[m] == y[j + (m - k)]);
                }
                lemma_run_end_eq(s, p_s + 1, k + c, CharClass::Letter);
                assert(tld_ok(s, p_s));
            }
            assert(lo_s < p_s < hi_s);
            if dot_choice(s, lo_s, hi_s) == -1 {
                lemma_dot_choice_none(s, lo_s, hi_s);
                assert(false);
            }
            lemma_dot_choice_bounds(s, lo_s, hi_s);
            let p2 = dot_choice(s, lo_s, hi_s);
            lemma_run_end_props(s, p2 + 1, CharClass::Letter);
            assert(email_end_at(s, k) == run_end(s, p2 + 1, CharClass::Letter));
            assert(email_end_at(s, k) >= p2 + 1);
        },
    }
}

/// What may stand directly left of a scan tail within the full output:
/// nothing at the very start, the marker's closing bracket right after
/// a replacement, or the source character that was just copied.
spec fn ctx_ok(s: Seq<char>, i: int, ctx: Seq<char>) -> bool {
    ||| (i == 0 && ctx.len() == 0)
    ||| (ctx.len() == 1 && ctx[0] == ']' && (i == s.len() || !is_word_char(s[i])))
    ||| (0 < i <= s.len() && ctx.len() == 1 && ctx[0] == s[i - 1])
}

/// No pattern matches anywhere in a scan's output: not the scanned
/// pattern (its matches were all replaced) and not any other pattern
/// that was already absent from the source.
#[verifier::rlimit(100)]
proof fn lemma_scan_no_match(
    p: RedactPattern,
    q: RedactPattern,
    s: Seq<char>,
    i: int,
    ctx: Seq<char>,
)
    requires
        0 <= i <= s.len(),
        ctx_ok(s, i, ctx),
        q != p ==> forall|m: int| 0 <= m < s.len() ==> #[trigger] match_end(q, s, m) == -1,
    ensures
        forall|jj: int|
            ctx.len() <= jj < ctx.len() + scan(p, s, i).len() ==> #[trigger] match_end(
                q,
                ctx + scan(p, s, i),
                jj,
            ) == -1,
    decreases s.len() - i,
{
    reveal_strlit("[REDACTED]");
    let t = ctx + scan(p, s, i);
    if i >= s.len() {
    } else {
        let e = match_end(p, s, i);
        if e != -1 {
            lemma_match_facts(p, s, i);
            let rest = scan(p, s, e);
            let ctx2 = seq![']'];
            lemma_scan_no_match(p, q, s, e, ctx2);
            let t2 = ctx2 + rest;
            assert(scan(p, s, i) == marker() + rest);
            assert(t.len() == ctx.len() + 10 + rest.len());
            assert forall|m: int| ctx.len() + 9 <= m < t.len() implies #[trigger] t[m] == t2[m
                - (ctx.len() + 9)] by {
                if m == ctx.len() + 9 {
                    assert(t[m] == marker()[9]);
                } else {
                    assert(t[m] == rest[m - ctx.len() - 10]);
                    assert(t2[m - ctx.len() - 9] == rest[m - ctx.len() - 10]);
                }
            }
            assert forall|jj: int| ctx.len() <= jj < t.len() implies #[trigger] match_end(
                q,
                t,
                jj,
            ) == -1 by {
                if jj < ctx.len() + 10 {
                    let off = jj - ctx.len();
                    assert(t[jj] == marker()[off]);
                    if off == 0 || off == 9 {
                        assert(!is_digit(t[jj]) && !is_local_char(t[jj]));
                        assert(match_end(q, t, jj) == -1);
                    } else {
                        assert(!is_digit(t[jj]));
                        assert forall|m2: int| jj <= m2 < ctx.len() + 9 implies in_class(
                            #[trigger] t[m2],
                            CharClass::Local,
                        ) by {
                            assert(t[m2] == marker()[m2 - ctx.len()]);
                        }
                        assert(t[ctx.len() as int + 9] == ']');
                        lemma_run_end_eq(t, jj, ctx.len() as int + 9, CharClass::Local);
                        assert(match_end(q, t, jj) == -1);
                    }
                } else {
                    let jj2 = jj - (ctx.len() + 9);
                    assert(suffix_aligned(t, jj, t2, jj2));
                    lemma_match_shift(q, t, jj, t2, jj2, 0);
                    assert(match_end(q, t2, jj2) == -1);
                }
            }
        } else {
            let rest = scan(p, s, i + 1);
            let ctx2 = seq![s[i]];
            lemma_scan_no_match(p, q, s, i + 1, ctx2);
            let t2 = ctx2 + rest;
            assert(scan(p, s, i) == seq![s[i]] + rest);
            assert(t.len() == ctx.len() + 1 + rest.len());
            assert forall|m: int| ctx.len() <= m < t.len() implies #[trigger] t[m] == t2[m
                - ctx.len()] by {
                if m == ctx.len() {
                    assert(t[m] == s[i]);
                } else {
                    assert(t[m] == rest[m - ctx.len() - 1]);
                    assert(t2[m - ctx.len()] == rest[m - ctx.len() - 1]);
                }
            }
            lemma_scan_decomp(p, s, i);
            let nm = next_match(p, s, i);
            assert forall|jj: int| ctx.len() <= jj < t.len() implies #[trigger] match_end(
                q,
                t,
                jj,
            ) == -1 by {
                if jj == ctx.len() {
                    if (i == 0 && ctx.len() == 0) || (0 < i && ctx.len() == 1 && ctx[0] == s[i
                        - 1]) {
                        if nm == s.len() {
                            assert forall|m: int| jj <= m < t.len() implies #[trigger] t[m] == s[m
                                - jj + i] by {
                                assert(t[m] == scan(p, s, i)[m - ctx.len()]);
                                assert(scan(p, s, i) == s.subrange(i, s.len() as int));
                            }
                            assert(suffix_aligned(t, jj, s, i));
                            lemma_match_shift(q, t, jj, s, i, 0);
                            assert(match_end(q, s, i) == -1);
                        } else {
                            let cc = nm - i;
                            assert(scan(p, s, i) == s.subrange(i, nm) + marker() + scan(
                                p,
                                s,
                                match_end(p, s, nm),
                            ));
                            assert forall|m: int| jj <= m < jj + cc implies #[trigger] t[m] == s[m
                                - jj + i] by {
                                assert(t[m] == scan(p, s, i)[m - ctx.len()]);
                                assert(scan(p, s, i)[m - ctx.len()] == s.subrange(i, nm)[m
                                    - ctx.len()]);
                            }
                            assert(t[jj + cc] == scan(p, s, i)[cc]);
                            assert(scan(p, s, i)[cc] == marker()[0]);
                            assert(t[jj + cc] == '[');
                            assert(jj + cc < t.len());
                            assert(match_end(p, s, nm) != -1);
                            lemma_match_facts(p, s, nm);
                            if match_end(q, t, jj) != -1 {
                                lemma_match_project(q, p, t, jj, s, i, cc);
                                assert(match_end(q, s, i) != -1);
                                assert(false);
                            }
                        }
                    } else {
                        assert(ctx.len() == 1 && ctx[0] == ']' && !is_word_char(s[i]));
                        assert(t[jj] == s[i]);
                        assert(!is_digit(t[jj]));
                        assert(!boundary(t, jj));
                        assert(match_end(q, t, jj) == -1);
                    }
                } else {
                    let jj2 = jj - ctx.len();
                    assert(suffix_aligned(t, jj, t2, jj2));
                    lemma_match_shift(q, t, jj, t2, jj2, 0);
                    assert(match_end(q, t2, jj2) == -1);
                }
            }
        }
    }
}

/// First position at or after `i` where `pat` matches, or the length.
spec fn next_match(pat: RedactPattern, s: Seq<char>, i: int) -> int
    decreases s.len() - i,
    when 0 <= i <= s.len()
{
    if i >= s.len() {
        i
    } else if match_end(pat, s, i) != -1 {
        i
    } else {
        next_match(pat, s, i + 1)
    }
}

/// A scan output decomposes into the text copied up to the first
/// match, then (if a match exists) the marker and the scan of the
/// rest.
proof fn lemma_scan_decomp(pat: RedactPattern, s: Seq<char>, i: int)
    requires
        0 <= i <= s.len(),
    ensures
        i <= next_match(pat, s, i) <= s.len(),
        forall|k: int| i <= k < next_match(pat, s, i) ==> #[trigger] match_end(pat, s, k) == -1,
        next_match(pat, s, i) < s.len() ==> match_end(pat, s, next_match(pat, s, i)) != -1,
        next_match(pat, s, i) < s.len() ==> scan(pat, s, i) == s.subrange(i, next_match(pat, s, i))
            + marker() + scan(pat, s, match_end(pat, s, next_match(pat, s, i))),
        next_match(pat, s, i) == s.len() ==> scan(pat, s, i) == s.subrange(i, s.len() as int),
    decreases s.len() - i,
{
    let m = next_match(pat, s, i);
    if i >= s.len() {
        assert(s.subrange(i, s.len() as int) =~= Seq::<char>::empty());
    } else if match_end(pat, s, i) != -1 {
        lemma_match_facts(pat, s, i);
        assert(s.subrange(i, i) =~= Seq::<char>::empty());
        assert(s.subrange(i, i) + marker() + scan(pat, s, match_end(pat, s, i)) =~= marker()
            + scan(pat, s, match_end(pat, s, i)));
    } else {
        lemma_scan_decomp(pat, s, i + 1);
        if m < s.len() {
            assert(seq![s[i]] + (s.subrange(i + 1, m) + marker() + scan(
                pat,
                s,
                match_end(pat, s, m),
            )) =~= s.subrange(i, m) + marker() + scan(pat, s, match_end(pat, s, m)));
        } else {
            assert(seq![s[i]] + s.subrange(i + 1, s.len() as int) =~= s.subrange(
                i,
                s.len() as int,
            ));
        }
    }
}

proof fn lemma_scan_fixes_clean(pat: RedactPattern, s: Seq<char>, i: int)
    requires
        0 <= i <= s.len(),
        forall|k: int| 0 <= k < s.len() ==> match_end(pat, s, k) == -1,
    ensures
        scan(pat, s, i) == s.subrange(i, s.len() as int),
    decreases s.len() - i,
{
    if i >= s.len() {
        assert(s.subrange(i, s.len() as int) =~= Seq::<char>::empty());
    } else {
        lemma_scan_fixes_clean(pat, s, i + 1);
        assert(seq![s[i]] + s.subrange(i + 1, s.len() as int) =~= s.subrange(i, s.len() as int));
    }
}

/// A scan's output is clean: the scanned pattern no longer matches
/// anywhere in it, and any pattern that was absent from the source is
/// still absent.
proof fn lemma_scan_output_clean(p: RedactPattern, q: RedactPattern, s: Seq<char>)
    requires
        q != p ==> forall|m: int| 0 <= m < s.len() ==> #[trigger] match_end(q, s, m) == -1,
    ensures
        forall|j: int|
            0 <= j < scan(p, s, 0).len() ==> #[trigger] match_end(q, scan(p, s, 0), j) == -1,
{
    let none: Seq<char> = Seq::empty();
    lemma_scan_no_match(p, q, s, 0, none);
    assert(none + scan(p, s, 0) =~= scan(p, s, 0));
}

/// Redaction is idempotent: the first application leaves no pattern
/// matching anywhere in its output, so a second application copies the
/// text unchanged.
pub proof fn lemma_redact_idempotent(s: Seq<char>)
    ensures
        redact_spec(redact_spec(s)) == redact_spec(s),
{
    let y1 = scan(RedactPattern::Ssn, s, 0);
    let y2 = scan(RedactPattern::Card, y1, 0);
    let y3 = scan(RedactPattern::Email, y2, 0);
    lemma_scan_output_clean(RedactPattern::Ssn, RedactPattern::Ssn, s);
    lemma_scan_output_clean(RedactPattern::Card, RedactPattern::Card, y1);
    lemma_scan_output_clean(RedactPattern::Card, RedactPattern::Ssn, y1);
    lemma_scan_output_clean(RedactPattern::Email, RedactPattern::Email, y2);
    lemma_scan_output_clean(RedactPattern::Email, RedactPattern::Ssn, y2);
    lemma_scan_output_clean(RedactPattern::Email, RedactPattern::Card, y2);
    lemma_scan_fixes_clean(RedactPattern::Ssn, y3, 0);
    assert(y3.subrange(0, y3.len() as int) =~= y3);
    lemma_scan_fixes_clean(RedactPattern::Card, y3, 0);
    lemma_scan_fixes_clean(RedactPattern::Email, y3, 0);
}

/// A text in which no pattern matches anywhere is a fixed point of
/// redaction: there is nothing to replace.
pub proof fn lemma_redact_fixes_clean(s: Seq<char>)
    requires
        forall|k: int| 0 <= k < s.len() ==> match_end(RedactPattern::Ssn, s, k) == -1,
        forall|k: int| 0 <= k < s.len() ==> match_end(RedactPattern::Card, s, k) == -1,
        forall|k: int| 0 <= k < s.len() ==> match_end(RedactPattern::Email, s, k) == -1,
    ensures
        redact_spec(s) == s,
{
    lemma_scan_fixes_clean(RedactPattern::Ssn, s, 0);
    assert(s.subrange(0, s.len() as int) =~= s);
    lemma_scan_fixes_clean(RedactPattern::Card, s, 0);
    lemma_scan_fixes_clean(RedactPattern::Email, s, 0);
}

fn exec_is_digit(c: char) -> (r: bool)
    ensures
        r == is_digit(c),
{
    let v = c as u32;
    48 <= v && v <= 57
}

fn exec_is_word_char(c: char) -> (r: bool)
    ensures
        r == is_word_char(c),
{
    let v = c as u32;
    (48 <= v && v <= 57) || (97 <= v && v <= 122) || (65 <= v && v <= 90) || c == '_'
}

fn exec_in_class(c: char, cls: CharClass) -> (r: bool)
    ensures
        r == in_class(c, cls),
{
    let v = c as u32;
    let alpha = (97 <= v && v <= 122) || (65 <= v && v <= 90);
    let digit = 48 <= v && v <= 57;
    match cls {
        CharClass::Local => alpha || digit || c == '.' || c == '_' || c == '%' || c == '+' || c
            == '-',
        CharClass::Domain => alpha || digit || c == '.' || c == '-',
        CharClass::Letter => alpha,
    }
}

/// The characters of a text, for random access while scanning.
fn str_chars(s: &str) -> (r: Vec<char>)
    ensures
        r@ == s@,
{
    let n = s.unicode_len();
    let mut r: Vec<char> = Vec::new();
    let mut i: usize = 0;
    while i < n
        invariant
            i <= n,
            n == s@.len(),
            r@ =~= s@.subrange(0, i as int),
        decreases n - i,
    {
        r.push(s.get_char(i));
        proof {
            assert(r@ =~= s@.subrange(0, i + 1));
        }
        i += 1;
    }
    proof {
        assert(r@ =~= s@);
    }
    r
}

fn exec_boundary(v: &Vec<char>, i: usize) -> (r: bool)
    requires
        i <= v@.len(),
    ensures
        r == boundary(v@, i as int),
{
    let left = i > 0 && exec_is_word_char(v[i - 1]);
    let right = i < v.len() && exec_is_word_char(v[i]);
    left != right
}

fn exec_run_end(v: &Vec<char>, i: usize, cls: CharClass) -> (r: usize)
    requires
        i <= v@.len(),
    ensures
        r == run_end(v@, i as int, cls),
        i <= r <= v@.len(),
    decreases v@.len() - i,
{
    let n = v.len();
    let mut j = i;
    while j < n && exec_in_class(v[j], cls)
        invariant
            i <= j <= n,
            n == v@.len(),
            run_end(v@, i as int, cls) == run_end(v@, j as int, cls),
        decreases n - j,
    {
        proof {
            assert(run_end(v@, j as int, cls) == run_end(v@, j + 1, cls));
        }
        j += 1;
    }
    j
}

fn exec_tld_ok(v: &Vec<char>, p: usize) -> (r: bool)
    requires
        p < v@.len(),
    ensures
        r == tld_ok(v@, p as int),
{
    let n = v.len();
    let q = exec_run_end(v, p + 1, CharClass::Letter);
    q - (p + 1) >= 2 && (q == n || !exec_is_word_char(v[q]))
}

fn exec_dot_choice(v: &Vec<char>, lo: usize, hi: usize) -> (r: Option<usize>)
    requires
        lo <= hi <= v@.len(),
    ensures
        match r {
            Some(p) => dot_choice(v@, lo as int, hi as int) == p && lo < p < hi && v@[p as int]
                == '.' && tld_ok(v@, p as int),
            None => dot_choice(v@, lo as int, hi as int) == -1,
        },
{
    let mut h = hi;
    while h - lo > 1
        invariant
            lo <= h <= hi,
            lo <= hi <= v@.len(),
            dot_choice(v@, lo as int, hi as int) == dot_choice(v@, lo as int, h as int),
        decreases h,
    {
        if v[h - 1] == '.' && exec_tld_ok(v, h - 1) {
            return Some(h - 1);
        }
        h -= 1;
    }
    None
}

fn exec_match_end(pat: RedactPattern, v: &Vec<char>, i: usize) -> (r: Option<usize>)
    requires
        i < v@.len(),
    ensures
        match r {
            Some(e) => match_end(pat, v@, i as int) == e && i < e <= v@.len(),
            None => match_end(pat, v@, i as int) == -1,
        },
{
    let n = v.len();
    match pat {
        RedactPattern::Ssn => {
            if n - i >= 11 && exec_boundary(v, i) && exec_boundary(v, i + 11) && exec_is_digit(
                v[i],
            ) && exec_is_digit(v[i + 1]) && exec_is_digit(v[i + 2]) && v[i + 3] == '-'
                && exec_is_digit(v[i + 4]) && exec_is_digit(v[i + 5]) && v[i + 6] == '-'
                && exec_is_digit(v[i + 7]) && exec_is_digit(v[i + 8]) && exec_is_digit(v[i + 9])
                && exec_is_digit(v[i + 10]) {
                Some(i + 11)
            } else {
                None
            }
        },
        RedactPattern::Card => {
            if n - i >= 16 && exec_boundary(v, i) && exec_boundary(v, i + 16) {
                let mut k: usize = 0;
                let mut all_digits = true;
                while k < 16
                    invariant
                        k <= 16,
                        n == v@.len(),
                        i + 16 <= n,
                        all_digits == forall|m: int|
                            i <= m < i + k ==> is_digit(#[trigger] v@[m]),
                    decreases 16 - k,
                {
                    if !exec_is_digit(v[i + k]) {
                        all_digits = false;
                    }
                    k += 1;
                }
                if all_digits {
                    Some(i + 16)
                } else {
                    None
                }
            } else {
                None
            }
        },
        RedactPattern::Email => {
            if !(exec_boundary(v, i) && exec_in_class(v[i], CharClass::Local)) {
                return None;
            }
            let j = exec_run_end(v, i, CharClass::Local);
            if j >= n || !(v[j] == '@') {
                return None;
            }
            let lo = j + 1;
            let hi = exec_run_end(v, lo, CharClass::Domain);
            match exec_dot_choice(v, lo, hi) {
                Some(p) => {
                    let e = exec_run_end(v, p + 1, CharClass::Letter);
                    Some(e)
                },
                None => None,
            }
        },
    }
}

/// One replace-all pass over `text`.
fn apply_pattern(pat: RedactPattern, text: &str) -> (r: String)
    ensures
        r@ == scan(pat, text@, 0),
{
    let v = str_chars(text);
    let n = v.len();
    let mut out = String::new();
    let mut seg_start: usize = 0;
    let mut i: usize = 0;
    proof {
        assert(out@ + v@.subrange(0, 0) + scan(pat, v@, 0) =~= scan(pat, v@, 0));
    }
    while i < n
        invariant
            seg_start <= i <= n,
            n == v@.len(),
            v@ == text@,
            scan(pat, v@, 0) == out@ + v@.subrange(seg_start as int, i as int) + scan(
                pat,
                v@,
                i as int,
            ),
        decreases n - i,
    {
        match exec_match_end(pat, &v, i) {
            Some(e) => {
                out.append(text.substring_char(seg_start, i));
                out.append("[REDACTED]");
                proof {
                    assert(scan(pat, v@, i as int) == marker() + scan(pat, v@, e as int));
                    assert(out@ + v@.subrange(e as int, e as int) + scan(pat, v@, e as int)
                        =~= scan(pat, v@, 0));
                }
                seg_start = e;
                i = e;
            },
            None => {
                proof {
                    assert(scan(pat, v@, i as int) == seq![v@[i as int]] + scan(pat, v@, i + 1));
                    assert(out@ + v@.subrange(seg_start as int, i + 1) + scan(pat, v@, i + 1)
                        =~= scan(pat, v@, 0));
                }
                i += 1;
            },
        }
    }
    out.append(text.substring_char(seg_start, n));
    proof {
        assert(scan(pat, v@, n as int) == Seq::<char>::empty());
        assert(out@ =~= scan(pat, v@, 0));
    }
    out
}

impl ExcavationSafetyProfile {
    /// Applies all redaction passes to the text, replacing every
    /// match of every pattern with the marker token; a later pattern
    /// sees the text already rewritten by the earlier ones.
    pub fn redact_text(&self, text: &str) -> (r: String)
        ensures
            r@ == redact_spec(text@),
    {
        let pass1 = apply_pattern(RedactPattern::Ssn, text);
        let pass2 = apply_pattern(RedactPattern::Card, pass1.as_str());
        let pass3 = apply_pattern(RedactPattern::Email, pass2.as_str());
        pass3
    }
}

} // verus!
