//! The pattern-substitution engine.
//!
//! A pattern is a sequence of anchor steps over text: literals,
//! whitespace runs, value skips and value captures. Matching is
//! deterministic and greedy: each step consumes the longest or the first
//! stretch it can, and never backtracks. A substitution finds every
//! non-overlapping match from left to right and replaces only the
//! captured spans, in rotation by the given replacement texts; every
//! character outside the captured spans is kept verbatim.

use vstd::prelude::*;

use crate::digits::{is_digit, is_digit_exec};

verus! {

/// One step of a structural anchor, at spec level.
pub enum SpecTok {
    /// The exact text, character for character.
    Lit(Seq<char>),
    /// A possibly empty run of whitespace, consumed greedily.
    Ws,
    /// A scan forward, crossing no brace, to the first occurrence of the
    /// literal that opens a declaration (at the scan's start, or preceded
    /// by whitespace); the literal is consumed.
    FindDecl(Seq<char>),
    /// One or more characters before the next `stop`, skipped; the `stop`
    /// itself is left for the next step.
    SkipUntil(char),
    /// One or more characters before the next `stop`, captured.
    CapUntil(char),
    /// A possibly empty numeric text captured: digits, then optionally a
    /// dot and more digits.
    CapNum,
}

/// One step of a structural anchor.
pub enum Tok {
    /// The exact text, character for character.
    Lit(Vec<char>),
    /// A possibly empty run of whitespace, consumed greedily.
    Ws,
    /// A scan, crossing no brace, to the literal opening a declaration.
    FindDecl(Vec<char>),
    /// One or more characters before the next `stop`, skipped.
    SkipUntil(char),
    /// One or more characters before the next `stop`, captured.
    CapUntil(char),
    /// A possibly empty numeric text, captured.
    CapNum,
}

impl View for Tok {
    type V = SpecTok;

    open spec fn view(&self) -> SpecTok {
        match self {
            Tok::Lit(l) => SpecTok::Lit(l@),
            Tok::Ws => SpecTok::Ws,
            Tok::FindDecl(l) => SpecTok::FindDecl(l@),
            Tok::SkipUntil(c) => SpecTok::SkipUntil(*c),
            Tok::CapUntil(c) => SpecTok::CapUntil(*c),
            Tok::CapNum => SpecTok::CapNum,
        }
    }
}

/// The steps of a pattern vector, at spec level.
pub open spec fn toks_view(ts: Seq<Tok>) -> Seq<SpecTok> {
    ts.map_values(|t: Tok| t@)
}

/// Captured spans, at spec level: each is the characters from `.0` up to
/// but not including `.1`.
pub open spec fn spans_view(sp: Seq<(usize, usize)>) -> Seq<(int, int)> {
    sp.map_values(|p: (usize, usize)| (p.0 as int, p.1 as int))
}

/// Replacement texts, at spec level.
pub open spec fn vals_view(vs: Seq<Vec<char>>) -> Seq<Seq<char>> {
    vs.map_values(|v: Vec<char>| v@)
}

/// A whitespace character: blank, tab, or line break.
pub open spec fn is_ws(c: char) -> bool {
    c == ' ' || c == '\t' || c == '\n' || c == '\r'
}

/// The position of the first non-whitespace character at or after `i`.
pub open spec fn ws_end(t: Seq<char>, i: int) -> int
    decreases t.len() - i,
{
    if 0 <= i && i < t.len() && is_ws(t[i]) {
        ws_end(t, i + 1)
    } else {
        i
    }
}

/// Whether the literal `l` stands at position `i` of `t`.
pub open spec fn lit_at(t: Seq<char>, i: int, l: Seq<char>) -> bool {
    0 <= i && i + l.len() <= t.len() && t.subrange(i, i + l.len() as int) == l
}

/// The position of the first `stop` character at or after `i`.
pub open spec fn scan_until(t: Seq<char>, i: int, stop: char) -> Option<int>
    decreases t.len() - i,
{
    if i < 0 || i >= t.len() {
        None
    } else if t[i] == stop {
        Some(i)
    } else {
        scan_until(t, i + 1, stop)
    }
}

/// The first position at or after `i` where `l` opens a declaration: `l`
/// stands there, at the scan's start `i0` or preceded by whitespace. The
/// scan fails at the end of the text and at any brace.
pub open spec fn find_decl(t: Seq<char>, i0: int, i: int, l: Seq<char>) -> Option<int>
    decreases t.len() - i,
{
    if i < 0 || i > t.len() {
        None
    } else if lit_at(t, i, l) && (i == i0 || is_ws(t[i - 1])) {
        Some(i)
    } else if i == t.len() {
        None
    } else if t[i] == '{' || t[i] == '}' {
        None
    } else {
        find_decl(t, i0, i + 1, l)
    }
}

/// The position after the run of digits at or after `i`.
pub open spec fn digits_end(t: Seq<char>, i: int) -> int
    decreases t.len() - i,
{
    if 0 <= i && i < t.len() && is_digit(t[i]) {
        digits_end(t, i + 1)
    } else {
        i
    }
}

/// The position after a numeric text at `i`: digits, then optionally a
/// dot and more digits.
pub open spec fn num_end(t: Seq<char>, i: int) -> int {
    let d = digits_end(t, i);
    if 0 <= d && d < t.len() && t[d] == '.' {
        digits_end(t, d + 1)
    } else {
        d
    }
}

/// The result of matching the steps `pat[k..]` at position `i` of `t`:
/// the position after the match and the captured spans in order, or
/// nothing.
pub open spec fn match_from(t: Seq<char>, pat: Seq<SpecTok>, k: int, i: int) -> Option<
    (int, Seq<(int, int)>),
>
    decreases pat.len() - k,
{
    if k < 0 || k >= pat.len() {
        Some((i, Seq::empty()))
    } else {
        match pat[k] {
            SpecTok::Lit(l) => if lit_at(t, i, l) {
                match_from(t, pat, k + 1, i + l.len())
            } else {
                None
            },
            SpecTok::Ws => match_from(t, pat, k + 1, ws_end(t, i)),
            SpecTok::FindDecl(l) => match find_decl(t, i, i, l) {
                Some(j) => match_from(t, pat, k + 1, j + l.len()),
                None => None,
            },
            SpecTok::SkipUntil(stop) => match scan_until(t, i, stop) {
                Some(j) => if j > i {
                    match_from(t, pat, k + 1, j)
                } else {
                    None
                },
                None => None,
            },
            SpecTok::CapUntil(stop) => match scan_until(t, i, stop) {
                Some(j) => if j > i {
                    match match_from(t, pat, k + 1, j) {
                        Some(r) => Some((r.0, seq![(i, j)] + r.1)),
                        None => None,
                    }
                } else {
                    None
                },
                None => None,
            },
            SpecTok::CapNum => {
                let j = num_end(t, i);
                match match_from(t, pat, k + 1, j) {
                    Some(r) => Some((r.0, seq![(i, j)] + r.1)),
                    None => None,
                }
            },
        }
    }
}

/// Every capture of every match of `pat` in `t` at or after `p`, left to
/// right and non-overlapping.
pub open spec fn find_all(t: Seq<char>, pat: Seq<SpecTok>, p: int) -> Seq<(int, int)>
    decreases t.len() - p + 1,
{
    if p < 0 || p > t.len() {
        Seq::empty()
    } else {
        match match_from(t, pat, 0, p) {
            Some(r) => {
                let next = if p < r.0 && r.0 <= t.len() {
                    r.0
                } else {
                    p + 1
                };
                r.1 + find_all(t, pat, next)
            },
            None => find_all(t, pat, p + 1),
        }
    }
}

/// The number of matches of `pat` in `t` at or after `p`.
pub open spec fn count_from(t: Seq<char>, pat: Seq<SpecTok>, p: int) -> nat
    decreases t.len() - p + 1,
{
    if p < 0 || p > t.len() {
        0
    } else {
        match match_from(t, pat, 0, p) {
            Some(r) => {
                let next = if p < r.0 && r.0 <= t.len() {
                    r.0
                } else {
                    p + 1
                };
                1 + count_from(t, pat, next)
            },
            None => count_from(t, pat, p + 1),
        }
    }
}

/// Spans ordered left to right, pairwise disjoint, inside `[lo, hi]`.
pub open spec fn spans_wf(sp: Seq<(int, int)>, lo: int, hi: int) -> bool {
    &&& forall|m: int|
        0 <= m < sp.len() ==> lo <= #[trigger] sp[m].0 && sp[m].0 <= sp[m].1 && sp[m].1 <= hi
    &&& forall|m1: int, m2: int|
        #![trigger sp[m1], sp[m2]]
        0 <= m1 < m2 < sp.len() ==> sp[m1].1 <= sp[m2].0
}

/// The text from `pos` on, with the spans from the `k`-th on replaced:
/// the `k`-th span by `vals[k mod vals.len()]`, and everything between
/// and after the spans kept verbatim.
pub open spec fn splice(
    t: Seq<char>,
    sp: Seq<(int, int)>,
    vals: Seq<Seq<char>>,
    k: int,
    pos: int,
) -> Seq<char>
    decreases sp.len() - k,
{
    if k < 0 || k >= sp.len() {
        t.subrange(pos, t.len() as int)
    } else {
        t.subrange(pos, sp[k].0) + vals[k % vals.len() as int] + splice(t, sp, vals, k + 1, sp[k].1)
    }
}

/// `t` with every match of `pat` substituted: the captures replaced in
/// rotation by `vals`, everything else verbatim.
pub open spec fn substituted(t: Seq<char>, pat: Seq<SpecTok>, vals: Seq<Seq<char>>) -> Seq<char> {
    splice(t, find_all(t, pat, 0), vals, 0, 0)
}

/// The number of matches of `pat` in `t`.
pub open spec fn match_count(t: Seq<char>, pat: Seq<SpecTok>) -> nat {
    count_from(t, pat, 0)
}

proof fn lemma_ws_end(t: Seq<char>, i: int)
    requires
        0 <= i <= t.len(),
    ensures
        i <= ws_end(t, i) <= t.len(),
    decreases t.len() - i,
{
    if i < t.len() && is_ws(t[i]) {
        lemma_ws_end(t, i + 1);
    }
}

proof fn lemma_scan_until(t: Seq<char>, i: int, stop: char)
    requires
        0 <= i,
    ensures
        scan_until(t, i, stop) matches Some(j) ==> i <= j < t.len(),
    decreases t.len() - i,
{
    if i < t.len() && t[i] != stop {
        lemma_scan_until(t, i + 1, stop);
    }
}

proof fn lemma_find_decl(t: Seq<char>, i0: int, i: int, l: Seq<char>)
    requires
        0 <= i,
    ensures
        find_decl(t, i0, i, l) matches Some(j) ==> i <= j && j + l.len() <= t.len(),
    decreases t.len() - i,
{
    if i <= t.len() {
        if lit_at(t, i, l) && (i == i0 || is_ws(t[i - 1])) {
        } else if i == t.len() {
        } else if t[i] == '{' || t[i] == '}' {
        } else {
            lemma_find_decl(t, i0, i + 1, l);
        }
    }
}

proof fn lemma_digits_end(t: Seq<char>, i: int)
    requires
        0 <= i <= t.len(),
    ensures
        i <= digits_end(t, i) <= t.len(),
    decreases t.len() - i,
{
    if i < t.len() && is_digit(t[i]) {
        lemma_digits_end(t, i + 1);
    }
}

proof fn lemma_num_end(t: Seq<char>, i: int)
    requires
        0 <= i <= t.len(),
    ensures
        i <= num_end(t, i) <= t.len(),
{
    lemma_digits_end(t, i);
    let d = digits_end(t, i);
    if 0 <= d && d < t.len() && t[d] == '.' {
        lemma_digits_end(t, d + 1);
    }
}

/// A successful match ends inside the text and its captures are ordered,
/// disjoint spans between the start and the end of the match.
proof fn lemma_match_wf(t: Seq<char>, pat: Seq<SpecTok>, k: int, i: int)
    requires
        0 <= i <= t.len(),
    ensures
        match_from(t, pat, k, i) matches Some(r) ==> i <= r.0 <= t.len() && spans_wf(r.1, i, r.0),
    decreases pat.len() - k,
{
    if k < 0 || k >= pat.len() {
    } else {
        match pat[k] {
            SpecTok::Lit(l) => {
                if lit_at(t, i, l) {
                    lemma_match_wf(t, pat, k + 1, i + l.len());
                    match match_from(t, pat, k + 1, i + l.len()) {
                        Some(r) => {
                            assert(spans_wf(r.1, i + l.len(), r.0));
                            assert(spans_wf(r.1, i, r.0));
                        },
                        None => {},
                    }
                }
            },
            SpecTok::Ws => {
                lemma_ws_end(t, i);
                lemma_match_wf(t, pat, k + 1, ws_end(t, i));
                match match_from(t, pat, k + 1, ws_end(t, i)) {
                    Some(r) => {
                        assert(spans_wf(r.1, ws_end(t, i), r.0));
                        assert(spans_wf(r.1, i, r.0));
                    },
                    None => {},
                }
            },
            SpecTok::FindDecl(l) => {
                lemma_find_decl(t, i, i, l);
                match find_decl(t, i, i, l) {
                    Some(j) => {
                        lemma_match_wf(t, pat, k + 1, j + l.len());
                        match match_from(t, pat, k + 1, j + l.len()) {
                            Some(r) => {
                                assert(spans_wf(r.1, j + l.len(), r.0));
                                assert(spans_wf(r.1, i, r.0));
                            },
                            None => {},
                        }
                    },
                    None => {},
                }
            },
            SpecTok::SkipUntil(stop) => {
                lemma_scan_until(t, i, stop);
                match scan_until(t, i, stop) {
                    Some(j) => {
                        if j > i {
                            lemma_match_wf(t, pat, k + 1, j);
                            match match_from(t, pat, k + 1, j) {
                                Some(r) => {
                                    assert(spans_wf(r.1, j, r.0));
                                    assert(spans_wf(r.1, i, r.0));
                                },
                                None => {},
                            }
                        }
                    },
                    None => {},
                }
            },
            SpecTok::CapUntil(stop) => {
                lemma_scan_until(t, i, stop);
                match scan_until(t, i, stop) {
                    Some(j) => {
                        if j > i {
                            lemma_match_wf(t, pat, k + 1, j);
                            match match_from(t, pat, k + 1, j) {
                                Some(r) => {
                                    let caps = seq![(i, j)] + r.1;
                                    assert(spans_wf(r.1, j, r.0));
                                    assert forall|m: int| 0 <= m < caps.len() implies i
                                        <= #[trigger] caps[m].0 && caps[m].0 <= caps[m].1
                                        && caps[m].1 <= r.0 by {
                                        if m == 0 {
                                        } else {
                                            assert(caps[m] == r.1[m - 1]);
                                        }
                                    }
                                    assert forall|m1: int, m2: int|
                                        #![trigger caps[m1], caps[m2]]
                                        0 <= m1 < m2 < caps.len() implies caps[m1].1
                                        <= caps[m2].0 by {
                                        if m1 == 0 {
                                            assert(caps[m2] == r.1[m2 - 1]);
                                        } else {
                                            assert(caps[m1] == r.1[m1 - 1]);
                                            assert(caps[m2] == r.1[m2 - 1]);
                                        }
                                    }
                                    assert(spans_wf(caps, i, r.0));
                                },
                                None => {},
                            }
                        }
                    },
                    None => {},
                }
            },
            SpecTok::CapNum => {
                lemma_num_end(t, i);
                let j = num_end(t, i);
                lemma_match_wf(t, pat, k + 1, j);
                match match_from(t, pat, k + 1, j) {
                    Some(r) => {
                        let caps = seq![(i, j)] + r.1;
                        assert(spans_wf(r.1, j, r.0));
                        assert forall|m: int| 0 <= m < caps.len() implies i <= #[trigger] caps[m].0
                            && caps[m].0 <= caps[m].1 && caps[m].1 <= r.0 by {
                            if m == 0 {
                            } else {
                                assert(caps[m] == r.1[m - 1]);
                            }
                        }
                        assert forall|m1: int, m2: int|
                            #![trigger caps[m1], caps[m2]]
                            0 <= m1 < m2 < caps.len() implies caps[m1].1 <= caps[m2].0 by {
                            if m1 == 0 {
                                assert(caps[m2] == r.1[m2 - 1]);
                            } else {
                                assert(caps[m1] == r.1[m1 - 1]);
                                assert(caps[m2] == r.1[m2 - 1]);
                            }
                        }
                        assert(spans_wf(caps, i, r.0));
                    },
                    None => {},
                }
            },
        }
    }
}

/// All captures found at or after `p` are ordered, disjoint spans inside
/// the text.
proof fn lemma_find_all_wf(t: Seq<char>, pat: Seq<SpecTok>, p: int)
    requires
        0 <= p,
    ensures
        spans_wf(find_all(t, pat, p), p, t.len() as int),
    decreases t.len() - p + 1,
{
    if p > t.len() {
    } else {
        match match_from(t, pat, 0, p) {
            Some(r) => {
                lemma_match_wf(t, pat, 0, p);
                let next = if p < r.0 && r.0 <= t.len() {
                    r.0
                } else {
                    p + 1
                };
                lemma_find_all_wf(t, pat, next);
                let rest = find_all(t, pat, next);
                let all = r.1 + rest;
                assert(spans_wf(r.1, p, r.0));
                assert(spans_wf(rest, next, t.len() as int));
                assert forall|m: int| 0 <= m < all.len() implies p <= #[trigger] all[m].0
                    && all[m].0 <= all[m].1 && all[m].1 <= t.len() by {
                    if m < r.1.len() {
                        assert(all[m] == r.1[m]);
                        assert(p <= r.1[m].0 && r.1[m].0 <= r.1[m].1 && r.1[m].1 <= r.0);
                    } else {
                        assert(all[m] == rest[m - r.1.len()]);
                        assert(next <= rest[m - r.1.len()].0 && rest[m - r.1.len()].0 <= rest[m
                            - r.1.len()].1 && rest[m - r.1.len()].1 <= t.len());
                    }
                }
                assert forall|m1: int, m2: int|
                    #![trigger all[m1], all[m2]]
                    0 <= m1 < m2 < all.len() implies all[m1].1 <= all[m2].0 by {
                    if m2 < r.1.len() {
                        assert(all[m1] == r.1[m1]);
                        assert(all[m2] == r.1[m2]);
                        assert(r.1[m1].1 <= r.1[m2].0);
                    } else if m1 < r.1.len() {
                        assert(all[m1] == r.1[m1]);
                        assert(all[m2] == rest[m2 - r.1.len()]);
                        assert(spans_wf(r.1, p, r.0));
                        assert(p <= r.1[m1].0);
                        assert(r.1[m1].1 <= r.0);
                        assert(next <= rest[m2 - r.1.len()].0);
                    } else {
                        assert(all[m1] == rest[m1 - r.1.len()]);
                        assert(all[m2] == rest[m2 - r.1.len()]);
                        assert(rest[m1 - r.1.len()].1 <= rest[m2 - r.1.len()].0);
                    }
                }
                assert(spans_wf(all, p, t.len() as int));
            },
            None => {
                lemma_find_all_wf(t, pat, p + 1);
            },
        }
    }
}

/// Where nothing matches, nothing is captured.
proof fn lemma_count_zero(t: Seq<char>, pat: Seq<SpecTok>, p: int)
    requires
        0 <= p,
        count_from(t, pat, p) == 0,
    ensures
        find_all(t, pat, p) == Seq::<(int, int)>::empty(),
    decreases t.len() - p + 1,
{
    if p > t.len() {
    } else {
        match match_from(t, pat, 0, p) {
            Some(r) => {
                assert(count_from(t, pat, p) >= 1);
            },
            None => {
                lemma_count_zero(t, pat, p + 1);
            },
        }
    }
}

/// Law: where a pattern matches nowhere in a text, substitution leaves
/// the text exactly as it was, whatever the replacement values.
pub proof fn lemma_no_match_keeps_text(t: Seq<char>, pat: Seq<SpecTok>, vals: Seq<Seq<char>>)
    requires
        match_count(t, pat) == 0,
    ensures
        substituted(t, pat, vals) == t,
{
    lemma_count_zero(t, pat, 0);
    assert(substituted(t, pat, vals) =~= t);
}

fn is_ws_exec(c: char) -> (b: bool)
    ensures
        b == is_ws(c),
{
    c == ' ' || c == '\t' || c == '\n' || c == '\r'
}

fn ws_end_x(t: &Vec<char>, i: usize) -> (r: usize)
    requires
        i <= t@.len(),
    ensures
        r as int == ws_end(t@, i as int),
        i <= r <= t@.len(),
{
    let mut j: usize = i;
    while j < t.len() && is_ws_exec(t[j])
        invariant
            i <= j <= t@.len(),
            ws_end(t@, i as int) == ws_end(t@, j as int),
        decreases t@.len() - j,
    {
        j += 1;
    }
    j
}

fn lit_at_x(t: &Vec<char>, i: usize, l: &Vec<char>) -> (b: bool)
    ensures
        b == lit_at(t@, i as int, l@),
{
    if i > t.len() || l.len() > t.len() - i {
        return false;
    }
    let mut m: usize = 0;
    while m < l.len()
        invariant
            i + l@.len() <= t@.len(),
            t@.len() <= usize::MAX,
            m <= l@.len(),
            forall|q: int| 0 <= q < m ==> t@[i + q] == l@[q],
        decreases l@.len() - m,
    {
        if t[i + m] != l[m] {
            proof {
                assert(t@.subrange(i as int, i + l@.len())[m as int] == t@[i + m]);
            }
            return false;
        }
        m += 1;
    }
    proof {
        assert(t@.subrange(i as int, i + l@.len()) =~= l@);
    }
    true
}

fn scan_until_x(t: &Vec<char>, i: usize, stop: char) -> (r: Option<usize>)
    requires
        i <= t@.len(),
    ensures
        r is None ==> scan_until(t@, i as int, stop) is None,
        r matches Some(j) ==> scan_until(t@, i as int, stop) == Some(j as int) && i <= j
            < t@.len(),
{
    let mut j: usize = i;
    while j < t.len()
        invariant
            i <= j <= t@.len(),
            scan_until(t@, i as int, stop) == scan_until(t@, j as int, stop),
        decreases t@.len() - j,
    {
        if t[j] == stop {
            return Some(j);
        }
        j += 1;
    }
    None
}

fn find_decl_x(t: &Vec<char>, i: usize, l: &Vec<char>) -> (r: Option<usize>)
    requires
        i <= t@.len(),
    ensures
        r is None ==> find_decl(t@, i as int, i as int, l@) is None,
        r matches Some(j) ==> find_decl(t@, i as int, i as int, l@) == Some(j as int) && i <= j
            && j + l@.len() <= t@.len(),
{
    let mut j: usize = i;
    loop
        invariant
            i <= j <= t@.len(),
            find_decl(t@, i as int, i as int, l@) == find_decl(t@, i as int, j as int, l@),
        decreases t@.len() + 1 - j,
    {
        if lit_at_x(t, j, l) && (j == i || is_ws_exec(t[j - 1])) {
            return Some(j);
        }
        if j == t.len() {
            return None;
        }
        let c = t[j];
        if c == '{' || c == '}' {
            return None;
        }
        j += 1;
    }
}

fn digits_end_x(t: &Vec<char>, i: usize) -> (r: usize)
    requires
        i <= t@.len(),
    ensures
        r as int == digits_end(t@, i as int),
        i <= r <= t@.len(),
{
    let mut j: usize = i;
    while j < t.len() && is_digit_exec(t[j])
        invariant
            i <= j <= t@.len(),
            digits_end(t@, i as int) == digits_end(t@, j as int),
        decreases t@.len() - j,
    {
        j += 1;
    }
    j
}

fn num_end_x(t: &Vec<char>, i: usize) -> (r: usize)
    requires
        i <= t@.len(),
    ensures
        r as int == num_end(t@, i as int),
        i <= r <= t@.len(),
{
    let d = digits_end_x(t, i);
    if d < t.len() && t[d] == '.' {
        digits_end_x(t, d + 1)
    } else {
        d
    }
}

/// Tries the steps `pat[k..]` at position `i`, returning the end of the
/// match and the captured spans.
fn try_match(t: &Vec<char>, pat: &Vec<Tok>, k: usize, i: usize) -> (r: Option<
    (usize, Vec<(usize, usize)>),
>)
    requires
        k <= pat@.len(),
        i <= t@.len(),
    ensures
        r is None ==> match_from(t@, toks_view(pat@), k as int, i as int) is None,
        r matches Some(h) ==> match_from(t@, toks_view(pat@), k as int, i as int) == Some(
            (h.0 as int, spans_view(h.1@)),
        ) && i <= h.0 <= t@.len(),
    decreases pat@.len() - k,
{
    if k == pat.len() {
        let caps: Vec<(usize, usize)> = Vec::new();
        proof {
            assert(spans_view(caps@) =~= Seq::<(int, int)>::empty());
        }
        return Some((i, caps));
    }
    proof {
        assert(toks_view(pat@)[k as int] == pat@[k as int]@);
        assert(t@.len() <= usize::MAX) by {
            assert(t.len() == t@.len());
        }
    }
    match &pat[k] {
        Tok::Lit(l) => {
            if lit_at_x(t, i, l) {
                try_match(t, pat, k + 1, i + l.len())
            } else {
                None
            }
        },
        Tok::Ws => {
            let j = ws_end_x(t, i);
            try_match(t, pat, k + 1, j)
        },
        Tok::FindDecl(l) => {
            match find_decl_x(t, i, l) {
                Some(j) => try_match(t, pat, k + 1, j + l.len()),
                None => None,
            }
        },
        Tok::SkipUntil(stop) => {
            match scan_until_x(t, i, *stop) {
                Some(j) => if j > i {
                    try_match(t, pat, k + 1, j)
                } else {
                    None
                },
                None => None,
            }
        },
        Tok::CapUntil(stop) => {
            match scan_until_x(t, i, *stop) {
                Some(j) => if j > i {
                    match try_match(t, pat, k + 1, j) {
                        Some(hit) => {
                            let e: usize = hit.0;
                            let mut caps = hit.1;
                            let ghost c0 = caps@;
                            caps.insert(0, (i, j));
                            proof {
                                assert(spans_view(caps@) =~= seq![(i as int, j as int)]
                                    + spans_view(c0));
                            }
                            Some((e, caps))
                        },
                        None => None,
                    }
                } else {
                    None
                },
                None => None,
            }
        },
        Tok::CapNum => {
            let j = num_end_x(t, i);
            match try_match(t, pat, k + 1, j) {
                Some(hit) => {
                    let e: usize = hit.0;
                    let mut caps = hit.1;
                    let ghost c0 = caps@;
                    caps.insert(0, (i, j));
                    proof {
                        assert(spans_view(caps@) =~= seq![(i as int, j as int)] + spans_view(c0));
                    }
                    Some((e, caps))
                },
                None => None,
            }
        },
    }
}

/// Every capture of every match of `pat` in `t`, with the number of
/// matches.
fn find_all_x(t: &Vec<char>, pat: &Vec<Tok>) -> (r: (Vec<(usize, usize)>, usize))
    requires
        t@.len() < usize::MAX,
    ensures
        spans_view(r.0@) == find_all(t@, toks_view(pat@), 0),
        r.1 as nat == count_from(t@, toks_view(pat@), 0),
{
    let ghost pv = toks_view(pat@);
    let mut spans: Vec<(usize, usize)> = Vec::new();
    let mut count: usize = 0;
    let mut p: usize = 0;
    proof {
        assert(spans_view(spans@) =~= Seq::<(int, int)>::empty());
        assert(find_all(t@, pv, 0) =~= spans_view(spans@) + find_all(t@, pv, 0));
    }
    while p <= t.len()
        invariant
            t@.len() < usize::MAX,
            p <= t@.len() + 1,
            count <= p,
            pv == toks_view(pat@),
            find_all(t@, pv, 0) == spans_view(spans@) + find_all(t@, pv, p as int),
            count_from(t@, pv, 0) == count + count_from(t@, pv, p as int),
        decreases t@.len() + 1 - p,
    {
        match try_match(t, pat, 0, p) {
            Some(hit) => {
                let e: usize = hit.0;
                let mut caps = hit.1;
                let ghost c0 = caps@;
                let ghost s0 = spans@;
                let next: usize = if e > p {
                    e
                } else {
                    p + 1
                };
                spans.append(&mut caps);
                count += 1;
                proof {
                    assert(spans_view(spans@) =~= spans_view(s0) + spans_view(c0));
                    assert(find_all(t@, pv, p as int) == spans_view(c0) + find_all(
                        t@,
                        pv,
                        next as int,
                    ));
                    assert(spans_view(s0) + (spans_view(c0) + find_all(t@, pv, next as int))
                        =~= (spans_view(s0) + spans_view(c0)) + find_all(t@, pv, next as int));
                }
                p = next;
            },
            None => {
                proof {
                    assert(find_all(t@, pv, p as int) == find_all(t@, pv, p as int + 1));
                    assert(count_from(t@, pv, p as int) == count_from(t@, pv, p as int + 1));
                }
                p += 1;
            },
        }
    }
    proof {
        assert(find_all(t@, pv, p as int) =~= Seq::<(int, int)>::empty());
        assert(spans_view(spans@) + Seq::<(int, int)>::empty() =~= spans_view(spans@));
        assert(count_from(t@, pv, p as int) == 0);
    }
    (spans, count)
}

/// Appends `t[from..to]` to `out`.
fn append_range(out: &mut Vec<char>, t: &Vec<char>, from: usize, to: usize)
    requires
        from <= to <= t@.len(),
    ensures
        final(out)@ == old(out)@ + t@.subrange(from as int, to as int),
{
    proof {
        assert(out@ =~= old(out)@ + t@.subrange(from as int, from as int));
    }
    let mut m: usize = from;
    while m < to
        invariant
            from <= m <= to <= t@.len(),
            out@ == old(out)@ + t@.subrange(from as int, m as int),
        decreases to - m,
    {
        out.push(t[m]);
        m += 1;
        proof {
            assert(out@ =~= old(out)@ + t@.subrange(from as int, m as int));
        }
    }
}

/// Appends all of `src` to `out`.
fn append_all(out: &mut Vec<char>, src: &Vec<char>)
    ensures
        final(out)@ == old(out)@ + src@,
{
    proof {
        assert(out@ =~= old(out)@ + src@.subrange(0, 0));
    }
    let mut m: usize = 0;
    while m < src.len()
        invariant
            m <= src@.len(),
            out@ == old(out)@ + src@.subrange(0, m as int),
        decreases src@.len() - m,
    {
        out.push(src[m]);
        m += 1;
        proof {
            assert(out@ =~= old(out)@ + src@.subrange(0, m as int));
        }
    }
    proof {
        assert(out@ =~= old(out)@ + src@);
    }
}

/// Splices the replacement texts into the captured spans of `t`, in
/// rotation.
fn splice_x(t: &Vec<char>, sp: &Vec<(usize, usize)>, vals: &Vec<Vec<char>>) -> (out: Vec<char>)
    requires
        spans_wf(spans_view(sp@), 0, t@.len() as int),
        vals@.len() > 0,
    ensures
        out@ == splice(t@, spans_view(sp@), vals_view(vals@), 0, 0),
{
    let ghost spv = spans_view(sp@);
    let ghost vv = vals_view(vals@);
    let mut out: Vec<char> = Vec::new();
    let mut pos: usize = 0;
    let mut k: usize = 0;
    proof {
        assert(splice(t@, spv, vv, 0, 0) =~= out@ + splice(t@, spv, vv, 0, 0));
    }
    while k < sp.len()
        invariant
            spans_wf(spv, 0, t@.len() as int),
            spv == spans_view(sp@),
            vv == vals_view(vals@),
            vals@.len() > 0,
            k <= sp@.len(),
            pos <= t@.len(),
            k < sp@.len() ==> pos as int <= spv[k as int].0,
            splice(t@, spv, vv, 0, 0) == out@ + splice(t@, spv, vv, k as int, pos as int),
        decreases sp@.len() - k,
    {
        let st: usize = sp[k].0;
        let en: usize = sp[k].1;
        proof {
            assert(spv[k as int] == (st as int, en as int));
            assert(0 <= spv[k as int].0 && spv[k as int].0 <= spv[k as int].1 && spv[k as int].1
                <= t@.len());
        }
        let ghost out0 = out@;
        append_range(&mut out, t, pos, st);
        let idx: usize = k % vals.len();
        proof {
            assert(vv[k as int % vals@.len() as int] == vals@[idx as int]@);
        }
        append_all(&mut out, &vals[idx]);
        proof {
            assert(splice(t@, spv, vv, k as int, pos as int) == t@.subrange(
                pos as int,
                spv[k as int].0,
            ) + vv[k as int % vv.len() as int] + splice(t@, spv, vv, k as int + 1, spv[k as int].1));
            assert(out0 + (t@.subrange(pos as int, st as int) + vals@[idx as int]@ + splice(
                t@,
                spv,
                vv,
                k as int + 1,
                en as int,
            )) =~= (out0 + t@.subrange(pos as int, st as int) + vals@[idx as int]@) + splice(
                t@,
                spv,
                vv,
                k as int + 1,
                en as int,
            ));
        }
        pos = en;
        k += 1;
        proof {
            if k < sp@.len() {
                assert(spv[k as int - 1].1 <= spv[k as int].0);
            }
        }
    }
    append_range(&mut out, t, pos, t.len());
    proof {
        assert(splice(t@, spv, vv, k as int, pos as int) == t@.subrange(
            pos as int,
            t@.len() as int,
        ));
    }
    out
}

/// Replaces, in `t`, the captured spans of every match of `pat` by the
/// texts of `vals`, in rotation, and counts the matches. Everything
/// outside the captured spans is returned verbatim; in particular, where
/// nothing matches the text comes back unchanged.
pub fn substitute(t: &Vec<char>, pat: &Vec<Tok>, vals: &Vec<Vec<char>>) -> (r: (Vec<char>, usize))
    requires
        t@.len() < usize::MAX,
        vals@.len() > 0,
    ensures
        r.0@ == substituted(t@, toks_view(pat@), vals_view(vals@)),
        r.1 as nat == match_count(t@, toks_view(pat@)),
        r.1 == 0 ==> r.0@ == t@,
{
    let found = find_all_x(t, pat);
    let spans = found.0;
    let count: usize = found.1;
    proof {
        lemma_find_all_wf(t@, toks_view(pat@), 0);
    }
    let out = splice_x(t, &spans, vals);
    proof {
        if count == 0 {
            lemma_count_zero(t@, toks_view(pat@), 0);
            assert(splice(t@, find_all(t@, toks_view(pat@), 0), vals_view(vals@), 0, 0)
                =~= t@);
        }
    }
    (out, count)
}


} // verus!
