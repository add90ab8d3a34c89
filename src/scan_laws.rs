//! Laws of the scanner, proved over its model.

use vstd::prelude::*;
use crate::scanner::{
    comment_end, digit, digits_end, identifier_head, identifier_tail, lemma_step, newline,
    newlines_in, number_end, produced, scan_from, scan_spec, single, single_kind, step,
    string_close, tail_end, whitespace, ScanStep, scan_errors_from,
};
use crate::text::joined;
use crate::token::{TokenKind, TokenModel};

verus! {

/// A step never produces an end marker.
pub proof fn lemma_step_token_not_end(gs: Seq<Seq<char>>, i: int, line: int)
    requires
        0 <= i < gs.len(),
    ensures
        step(gs, i, line).token is Some ==> (step(gs, i, line).token->0).kind != TokenKind::EOF,
{
}

/// Scanning is total, and what it yields ends with exactly one end marker.
pub proof fn lemma_one_end_marker(gs: Seq<Seq<char>>, i: int, line: int)
    ensures
        scan_from(gs, i, line).0.len() >= 1,
        scan_from(gs, i, line).0.last().kind == TokenKind::EOF,
        forall|j: int|
            0 <= j < scan_from(gs, i, line).0.len() - 1 ==> (#[trigger] scan_from(gs, i, line).0[j]).kind
                != TokenKind::EOF,
    decreases gs.len() - i,
{
    if 0 <= i < gs.len() {
        let s = step(gs, i, line);
        lemma_step(gs, i, line);
        lemma_step_token_not_end(gs, i, line);
        lemma_one_end_marker(gs, s.next, s.line);
        let rest = scan_from(gs, s.next, s.line).0;
        let all = scan_from(gs, i, line).0;
        assert(all == produced(s) + rest);
        assert forall|j: int| 0 <= j < all.len() - 1 implies (#[trigger] all[j]).kind != TokenKind::EOF by {
            if j >= produced(s).len() {
                assert(all[j] == rest[j - produced(s).len()]);
            }
        }
    }
}

/// A grapheme that is one character is no other one character.
pub proof fn lemma_single_char(g: Seq<char>, c: char)
    requires
        single(g, c),
    ensures
        forall|d: char| #[trigger] single(g, d) <==> d == c,
        !newline(g) || c == '\n',
        !digit(g) || ('0' <= c <= '9'),
{
    assert forall|d: char| #[trigger] single(g, d) implies d == c by {
        assert(seq![d][0] == d);
        assert(seq![c][0] == c);
    }
    assert(g[0] == c);
}

/// The error flag is set exactly when some error is reported.
pub proof fn lemma_flag_iff_errors(gs: Seq<Seq<char>>, i: int, line: int)
    ensures
        scan_from(gs, i, line).1 <==> scan_errors_from(gs, i, line).len() > 0,
    decreases gs.len() - i,
{
    if 0 <= i < gs.len() {
        let s = step(gs, i, line);
        lemma_step(gs, i, line);
        lemma_flag_iff_errors(gs, s.next, s.line);
    }
}

/// The closing quotation mark is not found when there is none.
proof fn lemma_no_close(gs: Seq<Seq<char>>, j: int)
    requires
        0 <= j <= gs.len(),
        forall|k: int| j <= k < gs.len() ==> !single(#[trigger] gs[k], '"'),
    ensures
        string_close(gs, j) == gs.len(),
    decreases gs.len() - j,
{
    if j < gs.len() {
        lemma_no_close(gs, j + 1);
    }
}

/// A quotation mark at a token start with no closing quotation mark after it
/// yields no string token: only the end marker follows, and the error flag
/// is set.
pub proof fn lemma_unterminated_string(gs: Seq<Seq<char>>, i: int, line: int)
    requires
        0 <= i < gs.len(),
        single(gs[i], '"'),
        forall|k: int| i < k < gs.len() ==> !single(#[trigger] gs[k], '"'),
    ensures
        scan_from(gs, i, line) == (
            seq![TokenModel { kind: TokenKind::EOF, text: Seq::empty(), line: line + newlines_in(gs, i + 1, gs.len() as int) }],
            true,
        ),
{
    lemma_no_close(gs, i + 1);
    lemma_single_char(gs[i], '"');
    let s = step(gs, i, line);
    assert(s.next == gs.len());
    assert(produced(s) =~= Seq::<TokenModel>::empty());
    assert(scan_from(gs, i, line).0 =~= scan_from(gs, s.next, s.line).0);
}

/// A grapheme that no rule of the scanner accepts at a token start, and that
/// cannot continue an identifier.
pub open spec fn invalid(g: Seq<char>) -> bool {
    &&& single_kind(g) is None
    &&& !single(g, '!') && !single(g, '=') && !single(g, '<') && !single(g, '>')
    &&& !single(g, '/') && !single(g, '"')
    &&& !newline(g) && !whitespace(g) && !digit(g)
    &&& !identifier_head(g) && !identifier_tail(g)
}

/// Scanning from `i` never meets a comment or a string that runs to the end
/// of the input.
pub open spec fn closed_from(gs: Seq<Seq<char>>, i: int, line: int) -> bool
    decreases gs.len() - i,
    via closed_from_decreases
{
    if i < 0 || i >= gs.len() {
        true
    } else {
        let g = gs[i];
        let open_comment = single(g, '/') && i + 1 < gs.len() && single(gs[i + 1], '/')
            && comment_end(gs, i + 2) >= gs.len();
        let open_string = single(g, '"') && string_close(gs, i + 1) >= gs.len();
        let s = step(gs, i, line);
        !open_comment && !open_string && closed_from(gs, s.next, s.line)
    }
}

#[via_fn]
proof fn closed_from_decreases(gs: Seq<Seq<char>>, i: int, line: int) {
    if 0 <= i < gs.len() {
        lemma_step(gs, i, line);
    }
}

/// `w` extends `a` by at least one grapheme.
pub open spec fn extends(w: Seq<Seq<char>>, a: Seq<Seq<char>>) -> bool {
    a.len() < w.len() && forall|j: int| 0 <= j < a.len() ==> #[trigger] w[j] == a[j]
}

/// `w` ends with `b` after `n` graphemes.
pub open spec fn ends_with(w: Seq<Seq<char>>, n: int, b: Seq<Seq<char>>) -> bool {
    0 <= n && w.len() == n + b.len() && forall|j: int| 0 <= j < b.len() ==> #[trigger] w[n + j] == b[j]
}

proof fn lemma_joined_agree(w: Seq<Seq<char>>, a: Seq<Seq<char>>, lo: int, hi: int)
    requires
        0 <= lo,
        hi <= a.len(),
        hi <= w.len(),
        forall|j: int| 0 <= j < a.len() && j < w.len() ==> #[trigger] w[j] == a[j],
    ensures
        joined(w, lo, hi) == joined(a, lo, hi),
        newlines_in(w, lo, hi) == newlines_in(a, lo, hi),
    decreases hi - lo,
{
    if lo < hi {
        lemma_joined_agree(w, a, lo, hi - 1);
    }
}

proof fn lemma_joined_shift(w: Seq<Seq<char>>, n: int, b: Seq<Seq<char>>, lo: int, hi: int)
    requires
        ends_with(w, n, b),
        0 <= lo,
        hi <= b.len(),
    ensures
        joined(w, n + lo, n + hi) == joined(b, lo, hi),
        newlines_in(w, n + lo, n + hi) == newlines_in(b, lo, hi),
    decreases hi - lo,
{
    if lo < hi {
        lemma_joined_shift(w, n, b, lo, hi - 1);
        assert(w[n + hi - 1] == b[hi - 1]);
    }
}

proof fn lemma_ends_agree(w: Seq<Seq<char>>, a: Seq<Seq<char>>, j: int)
    requires
        extends(w, a),
        0 <= j <= a.len(),
        !digit(w[a.len() as int]),
        !identifier_tail(w[a.len() as int]),
    ensures
        digits_end(w, j) == digits_end(a, j),
        tail_end(w, j) == tail_end(a, j),
        comment_end(a, j) < a.len() ==> comment_end(w, j) == comment_end(a, j),
        string_close(a, j) < a.len() ==> string_close(w, j) == string_close(a, j),
    decreases a.len() - j,
{
    if j < a.len() {
        lemma_ends_agree(w, a, j + 1);
    }
}

proof fn lemma_ends_shift(w: Seq<Seq<char>>, n: int, b: Seq<Seq<char>>, j: int)
    requires
        ends_with(w, n, b),
        0 <= j <= b.len(),
    ensures
        digits_end(w, n + j) == n + digits_end(b, j),
        tail_end(w, n + j) == n + tail_end(b, j),
        comment_end(w, n + j) == n + comment_end(b, j),
        string_close(w, n + j) == n + string_close(b, j),
    decreases b.len() - j,
{
    if j < b.len() {
        assert(w[n + j] == b[j]);
        lemma_ends_shift(w, n, b, j + 1);
    }
}

/// The step at `n + j` of `w` is the step at `j` of its suffix `b`, moved by `n`.
proof fn lemma_step_shift(w: Seq<Seq<char>>, n: int, b: Seq<Seq<char>>, j: int, line: int)
    requires
        ends_with(w, n, b),
        0 <= j < b.len(),
    ensures
        step(w, n + j, line) == (ScanStep { next: step(b, j, line).next + n, ..step(b, j, line) }),
{
    assert(w[n + j] == b[j]);
    if j + 1 < b.len() {
        assert(w[n + (j + 1)] == b[j + 1]);
    }
    lemma_ends_shift(w, n, b, j + 1);
    if j + 2 <= b.len() {
        lemma_ends_shift(w, n, b, j + 2);
    }
    lemma_step(b, j, line);
    let k = digits_end(b, j + 1);
    crate::scanner::lemma_digits_end(b, j + 1);
    if k < b.len() {
        assert(w[n + k] == b[k]);
    }
    if k + 1 < b.len() {
        assert(w[n + (k + 1)] == b[k + 1]);
        lemma_ends_shift(w, n, b, k + 1);
        crate::scanner::lemma_digits_end(b, k + 1);
    }
    assert(n + digits_end(b, j + 1) == digits_end(w, n + j + 1));
    assert(number_end(w, n + j) == n + number_end(b, j));
    let c = string_close(b, j + 1);
    crate::scanner::lemma_string_close(b, j + 1);
    lemma_joined_shift(w, n, b, j + 1, c);
    if c < b.len() {
        lemma_joined_shift(w, n, b, j, c + 1);
    }
    let e = number_end(b, j);
    let t = tail_end(b, j + 1);
    crate::scanner::lemma_tail_end(b, j + 1);
    lemma_joined_shift(w, n, b, j, e);
    lemma_joined_shift(w, n, b, j, t);
}

/// Scanning a suffix that starts at a token start is scanning it alone.
pub proof fn lemma_scan_shift(w: Seq<Seq<char>>, n: int, b: Seq<Seq<char>>, j: int, line: int)
    requires
        ends_with(w, n, b),
        0 <= j <= b.len(),
    ensures
        scan_from(w, n + j, line) == scan_from(b, j, line),
    decreases b.len() - j,
{
    if j < b.len() {
        lemma_step_shift(w, n, b, j, line);
        lemma_step(b, j, line);
        let s = step(b, j, line);
        lemma_scan_shift(w, n, b, s.next, s.line);
    }
}

/// Within `a`, a step of a longer input that goes on with an invalid
/// grapheme is the step of `a`, unless it opens a comment or a string that
/// `a` does not close.
proof fn lemma_step_agree(w: Seq<Seq<char>>, a: Seq<Seq<char>>, i: int, line: int)
    requires
        extends(w, a),
        invalid(w[a.len() as int]),
        0 <= i < a.len(),
        !(single(a[i], '/') && i + 1 < a.len() && single(a[i + 1], '/') && comment_end(a, i + 2) >= a.len()),
        !(single(a[i], '"') && string_close(a, i + 1) >= a.len()),
    ensures
        step(w, i, line) == step(a, i, line),
{
    let x = w[a.len() as int];
    assert(w[i] == a[i]);
    if i + 1 < a.len() {
        assert(w[i + 1] == a[i + 1]);
    }
    lemma_ends_agree(w, a, i + 1);
    if i + 2 <= a.len() {
        lemma_ends_agree(w, a, i + 2);
    }
    lemma_step(a, i, line);
    let k = digits_end(a, i + 1);
    crate::scanner::lemma_digits_end(a, i + 1);
    if k < a.len() {
        assert(w[k] == a[k]);
    }
    if k + 1 < a.len() {
        assert(w[k + 1] == a[k + 1]);
        lemma_ends_agree(w, a, k + 1);
        crate::scanner::lemma_digits_end(a, k + 1);
    }
    assert(number_end(w, i) == number_end(a, i));
    let c = string_close(a, i + 1);
    crate::scanner::lemma_string_close(a, i + 1);
    lemma_joined_agree(w, a, i + 1, c);
    if c < a.len() {
        lemma_joined_agree(w, a, i, c + 1);
    }
    crate::scanner::lemma_tail_end(a, i + 1);
    lemma_joined_agree(w, a, i, number_end(a, i));
    lemma_joined_agree(w, a, i, tail_end(a, i + 1));
}

/// Scanning `w` from a token start `i` within `a`, where `w` goes on after
/// `a` with an invalid grapheme and then `b`.
proof fn lemma_invalid_after(
    w: Seq<Seq<char>>,
    a: Seq<Seq<char>>,
    b: Seq<Seq<char>>,
    i: int,
    line: int,
)
    requires
        extends(w, a),
        ends_with(w, a.len() + 1int, b),
        invalid(w[a.len() as int]),
        0 <= i <= a.len(),
        closed_from(a, i, line),
    ensures
        scan_from(w, i, line) == (
            scan_from(a, i, line).0.drop_last() + scan_from(b, 0, scan_from(a, i, line).0.last().line).0,
            true,
        ),
    decreases a.len() - i,
{
    if i == a.len() {
        lemma_scan_shift(w, a.len() + 1int, b, 0, line);
        let s = step(w, i, line);
        assert(s == (ScanStep { next: i + 1, line, token: None, error: true }));
        assert(produced(s) =~= Seq::<TokenModel>::empty());
        assert(scan_from(a, i, line).0.drop_last() =~= Seq::<TokenModel>::empty());
        assert(scan_from(w, i, line).0 =~= scan_from(w, i + 1, line).0);
    } else {
        lemma_step_agree(w, a, i, line);
        lemma_step(a, i, line);
        let s = step(a, i, line);
        lemma_invalid_after(w, a, b, s.next, s.line);
        lemma_one_end_marker(a, s.next, s.line);
        let rest = scan_from(a, s.next, s.line).0;
        assert(scan_from(a, i, line).0 == produced(s) + rest);
        assert((produced(s) + rest).drop_last() =~= produced(s) + rest.drop_last());
        assert((produced(s) + rest).last() == rest.last());
        assert(scan_from(w, i, line).0 =~= produced(s) + scan_from(w, s.next, s.line).0);
    }
}

/// An invalid grapheme among otherwise valid input does not stop the scan:
/// the result holds the tokens of what precedes it, then those of what
/// follows it (on the line where the first part ended), and the error flag
/// is set. What precedes it must not leave a comment or a string open.
pub proof fn lemma_invalid_grapheme_skipped(a: Seq<Seq<char>>, x: Seq<char>, b: Seq<Seq<char>>)
    requires
        invalid(x),
        closed_from(a, 0, 1),
    ensures
        scan_spec(a + seq![x] + b) == (
            scan_spec(a).0.drop_last() + scan_from(b, 0, scan_spec(a).0.last().line).0,
            true,
        ),
{
    let w = a + seq![x] + b;
    assert(extends(w, a));
    assert(w[a.len() as int] == x);
    assert(ends_with(w, a.len() + 1int, b));
    lemma_invalid_after(w, a, b, 0, 1);
}

} // verus!
