//! The scanner: source text to tokens, one grapheme cluster at a time.
//!
//! The behaviour is stated over the sequence of grapheme clusters: `scan_from`
//! gives the tokens and the error flag that scanning produces from a position,
//! one `step` at a time.

use vstd::prelude::*;
use crate::scan_laws::lemma_one_end_marker;
use crate::text::{
    append_chars, char_is_alphabetic, char_is_alphanumeric, char_is_whitespace, graphemes_of,
    is_unicode_alphabetic, is_unicode_alphanumeric, is_unicode_whitespace, joined, same_chars,
    split_graphemes, string_of,
};
use crate::token::{AnnotatedToken, Token, TokenKind, TokenModel, models};

verus! {

/// The grapheme is exactly the character `c`.
pub open spec fn single(g: Seq<char>, c: char) -> bool {
    g == seq![c]
}

pub open spec fn newline(g: Seq<char>) -> bool {
    single(g, '\n')
}

/// Every character of the grapheme is whitespace (newlines included).
pub open spec fn whitespace(g: Seq<char>) -> bool {
    forall|i: int| 0 <= i < g.len() ==> is_unicode_whitespace(#[trigger] g[i])
}

/// A single ASCII digit.
pub open spec fn digit(g: Seq<char>) -> bool {
    g.len() == 1 && '0' <= g[0] <= '9'
}

/// Every character is alphabetic or an underscore.
pub open spec fn identifier_head(g: Seq<char>) -> bool {
    forall|i: int| 0 <= i < g.len() ==> is_unicode_alphabetic(#[trigger] g[i]) || g[i] == '_'
}

/// Every character is alphanumeric or an underscore.
pub open spec fn identifier_tail(g: Seq<char>) -> bool {
    forall|i: int| 0 <= i < g.len() ==> is_unicode_alphanumeric(#[trigger] g[i]) || g[i] == '_'
}

/// The token kind of a one-character punctuation grapheme.
pub open spec fn single_kind(g: Seq<char>) -> Option<TokenKind> {
    if g == seq!['('] {
        Some(TokenKind::LeftParen)
    } else if g == seq![')'] {
        Some(TokenKind::RightParen)
    } else if g == seq!['{'] {
        Some(TokenKind::LeftBrace)
    } else if g == seq!['}'] {
        Some(TokenKind::RightBrace)
    } else if g == seq![','] {
        Some(TokenKind::Comma)
    } else if g == seq!['.'] {
        Some(TokenKind::Dot)
    } else if g == seq!['-'] {
        Some(TokenKind::Minus)
    } else if g == seq!['+'] {
        Some(TokenKind::Plus)
    } else if g == seq![';'] {
        Some(TokenKind::Semicolon)
    } else if g == seq!['*'] {
        Some(TokenKind::Star)
    } else {
        None
    }
}

/// The keyword spelled by `t`, if any.
pub open spec fn keyword_kind(t: Seq<char>) -> Option<TokenKind> {
    if t == seq!['a', 'n', 'd'] {
        Some(TokenKind::And)
    } else if t == seq!['c', 'l', 'a', 's', 's'] {
        Some(TokenKind::Class)
    } else if t == seq!['e', 'l', 's', 'e'] {
        Some(TokenKind::Else)
    } else if t == seq!['f', 'a', 'l', 's', 'e'] {
        Some(TokenKind::False)
    } else if t == seq!['f', 'o', 'r'] {
        Some(TokenKind::For)
    } else if t == seq!['f', 'u', 'n'] {
        Some(TokenKind::Fun)
    } else if t == seq!['i', 'f'] {
        Some(TokenKind::If)
    } else if t == seq!['n', 'i', 'l'] {
        Some(TokenKind::Nil)
    } else if t == seq!['o', 'r'] {
        Some(TokenKind::Or)
    } else if t == seq!['p', 'r', 'i', 'n', 't'] {
        Some(TokenKind::Print)
    } else if t == seq!['r', 'e', 't', 'u', 'r', 'n'] {
        Some(TokenKind::Return)
    } else if t == seq!['s', 'u', 'p', 'e', 'r'] {
        Some(TokenKind::Super)
    } else if t == seq!['t', 'h', 'i', 's'] {
        Some(TokenKind::This)
    } else if t == seq!['t', 'r', 'u', 'e'] {
        Some(TokenKind::True)
    } else if t == seq!['v', 'a', 'r'] {
        Some(TokenKind::Var)
    } else if t == seq!['w', 'h', 'i', 'l', 'e'] {
        Some(TokenKind::While)
    } else {
        None
    }
}

/// The first position at or after `j` that holds a newline, or the end.
pub open spec fn comment_end(gs: Seq<Seq<char>>, j: int) -> int
    decreases gs.len() - j,
{
    if j >= gs.len() || newline(gs[j]) {
        j
    } else {
        comment_end(gs, j + 1)
    }
}

/// The first position at or after `j` that holds a quotation mark, or the end.
pub open spec fn string_close(gs: Seq<Seq<char>>, j: int) -> int
    decreases gs.len() - j,
{
    if j >= gs.len() || single(gs[j], '"') {
        j
    } else {
        string_close(gs, j + 1)
    }
}

/// The first position at or after `j` that holds no digit, or the end.
pub open spec fn digits_end(gs: Seq<Seq<char>>, j: int) -> int
    decreases gs.len() - j,
{
    if j >= gs.len() || !digit(gs[j]) {
        j
    } else {
        digits_end(gs, j + 1)
    }
}

/// The first position at or after `j` that cannot continue an identifier.
pub open spec fn tail_end(gs: Seq<Seq<char>>, j: int) -> int
    decreases gs.len() - j,
{
    if j >= gs.len() || !identifier_tail(gs[j]) {
        j
    } else {
        tail_end(gs, j + 1)
    }
}

/// The end of the number that starts at `i`: its digits, and a fraction
/// only where the `.` is followed by a digit.
pub open spec fn number_end(gs: Seq<Seq<char>>, i: int) -> int {
    let k = digits_end(gs, i + 1);
    if k + 1 < gs.len() && single(gs[k], '.') && digit(gs[k + 1]) {
        digits_end(gs, k + 1)
    } else {
        k
    }
}

/// The number of newlines in `gs[lo..hi]`.
pub open spec fn newlines_in(gs: Seq<Seq<char>>, lo: int, hi: int) -> int
    decreases hi - lo,
{
    if hi <= lo {
        0
    } else {
        newlines_in(gs, lo, hi - 1) + if newline(gs[hi - 1]) { 1int } else { 0int }
    }
}

/// A kind of lexical error.
#[derive(Clone, Copy, PartialEq, Eq, Structural, Debug)]
pub enum ScanErrorKind {
    /// The input ended inside a string literal.
    UnterminatedString,
    /// A grapheme that no rule accepts at a token start.
    UnexpectedCharacter,
}

/// A lexical error and the line it was reported on.
#[derive(Clone, Copy, PartialEq, Eq, Structural, Debug)]
pub struct ScanError {
    pub line_number: usize,
    pub kind: ScanErrorKind,
}

/// What one call of the scanner does at a token start.
pub struct ScanStep {
    /// Where the next token starts.
    pub next: int,
    /// The line counter afterwards.
    pub line: int,
    /// The token produced, if any.
    pub token: Option<TokenModel>,
    /// Whether an error was reported.
    pub error: bool,
}

pub open spec fn emit(next: int, line: int, kind: TokenKind, text: Seq<char>) -> ScanStep {
    ScanStep { next, line, token: Some(TokenModel { kind, text, line }), error: false }
}

pub open spec fn skip(next: int, line: int, error: bool) -> ScanStep {
    ScanStep { next, line, token: None, error }
}

/// The tokens a step contributes: none or one.
pub open spec fn produced(s: ScanStep) -> Seq<TokenModel> {
    match s.token {
        Some(t) => seq![t],
        None => Seq::empty(),
    }
}

/// `c` alone, or `c=` when the next grapheme is `=`.
pub open spec fn one_or_two(
    gs: Seq<Seq<char>>,
    i: int,
    line: int,
    one: TokenKind,
    two: TokenKind,
) -> ScanStep {
    if i + 1 < gs.len() && single(gs[i + 1], '=') {
        emit(i + 2, line, two, Seq::empty())
    } else {
        emit(i + 1, line, one, Seq::empty())
    }
}

/// The scanner's step at position `i` (with `0 <= i < gs.len()`).
pub open spec fn step(gs: Seq<Seq<char>>, i: int, line: int) -> ScanStep {
    let g = gs[i];
    if single_kind(g) is Some {
        emit(i + 1, line, single_kind(g)->0, Seq::empty())
    } else if single(g, '!') {
        one_or_two(gs, i, line, TokenKind::Bang, TokenKind::BangEqual)
    } else if single(g, '=') {
        one_or_two(gs, i, line, TokenKind::Equal, TokenKind::EqualEqual)
    } else if single(g, '<') {
        one_or_two(gs, i, line, TokenKind::Less, TokenKind::LessEqual)
    } else if single(g, '>') {
        one_or_two(gs, i, line, TokenKind::Greater, TokenKind::GreaterEqual)
    } else if single(g, '/') {
        if i + 1 < gs.len() && single(gs[i + 1], '/') {
            skip(comment_end(gs, i + 2), line, false)
        } else {
            emit(i + 1, line, TokenKind::Slash, Seq::empty())
        }
    } else if single(g, '"') {
        let k = string_close(gs, i + 1);
        let l = line + newlines_in(gs, i + 1, k);
        if k >= gs.len() {
            skip(gs.len() as int, l, true)
        } else {
            emit(k + 1, l, TokenKind::String, joined(gs, i, k + 1))
        }
    } else if newline(g) {
        skip(i + 1, line + 1, false)
    } else if whitespace(g) {
        skip(i + 1, line, false)
    } else if digit(g) {
        let e = number_end(gs, i);
        emit(e, line, TokenKind::Number, joined(gs, i, e))
    } else if identifier_head(g) {
        let e = tail_end(gs, i + 1);
        let t = joined(gs, i, e);
        match keyword_kind(t) {
            Some(k) => emit(e, line, k, Seq::empty()),
            None => emit(e, line, TokenKind::Identifier, t),
        }
    } else {
        skip(i + 1, line, true)
    }
}

pub proof fn lemma_comment_end(gs: Seq<Seq<char>>, j: int)
    requires
        j <= gs.len(),
    ensures
        j <= comment_end(gs, j) <= gs.len(),
    decreases gs.len() - j,
{
    if j < gs.len() && !newline(gs[j]) {
        lemma_comment_end(gs, j + 1);
    }
}

pub proof fn lemma_string_close(gs: Seq<Seq<char>>, j: int)
    requires
        j <= gs.len(),
    ensures
        j <= string_close(gs, j) <= gs.len(),
    decreases gs.len() - j,
{
    if j < gs.len() && !single(gs[j], '"') {
        lemma_string_close(gs, j + 1);
    }
}

pub proof fn lemma_digits_end(gs: Seq<Seq<char>>, j: int)
    requires
        j <= gs.len(),
    ensures
        j <= digits_end(gs, j) <= gs.len(),
    decreases gs.len() - j,
{
    if j < gs.len() && digit(gs[j]) {
        lemma_digits_end(gs, j + 1);
    }
}

pub proof fn lemma_tail_end(gs: Seq<Seq<char>>, j: int)
    requires
        j <= gs.len(),
    ensures
        j <= tail_end(gs, j) <= gs.len(),
    decreases gs.len() - j,
{
    if j < gs.len() && identifier_tail(gs[j]) {
        lemma_tail_end(gs, j + 1);
    }
}

pub proof fn lemma_newlines_in(gs: Seq<Seq<char>>, lo: int, hi: int)
    requires
        lo <= hi,
    ensures
        0 <= newlines_in(gs, lo, hi) <= hi - lo,
    decreases hi - lo,
{
    if lo < hi {
        lemma_newlines_in(gs, lo, hi - 1);
    }
}

/// A step moves forward, stays within the input, and counts at most one line
/// per grapheme it consumes.
pub proof fn lemma_step(gs: Seq<Seq<char>>, i: int, line: int)
    requires
        0 <= i < gs.len(),
    ensures
        i < step(gs, i, line).next <= gs.len(),
        line <= step(gs, i, line).line <= line + (step(gs, i, line).next - i),
{
    if i + 2 <= gs.len() {
        lemma_comment_end(gs, i + 2);
    }
    lemma_string_close(gs, i + 1);
    lemma_digits_end(gs, i + 1);
    lemma_tail_end(gs, i + 1);
    let k = digits_end(gs, i + 1);
    if k + 1 < gs.len() {
        lemma_digits_end(gs, k + 1);
    }
    if i + 1 <= string_close(gs, i + 1) {
        lemma_newlines_in(gs, i + 1, string_close(gs, i + 1));
    }
}

/// The tokens and the error flag that scanning produces from position `i`
/// with the line counter at `line`, end marker included.
pub open spec fn scan_from(gs: Seq<Seq<char>>, i: int, line: int) -> (Seq<TokenModel>, bool)
    decreases gs.len() - i,
    via scan_from_decreases
{
    if i < 0 || i >= gs.len() {
        (seq![TokenModel { kind: TokenKind::EOF, text: Seq::empty(), line }], false)
    } else {
        let s = step(gs, i, line);
        let rest = scan_from(gs, s.next, s.line);
        (produced(s) + rest.0, s.error || rest.1)
    }
}

#[via_fn]
proof fn scan_from_decreases(gs: Seq<Seq<char>>, i: int, line: int) {
    if 0 <= i < gs.len() {
        lemma_step(gs, i, line);
    }
}

/// The kind of the error that the step at `i` reports, if it reports one.
pub open spec fn step_error_kind(gs: Seq<Seq<char>>, i: int) -> ScanErrorKind {
    if single(gs[i], '"') {
        ScanErrorKind::UnterminatedString
    } else {
        ScanErrorKind::UnexpectedCharacter
    }
}

/// The errors a step reports: none or one, on the line where it ends.
pub open spec fn reported(gs: Seq<Seq<char>>, i: int, s: ScanStep) -> Seq<ScanError> {
    if s.error {
        seq![ScanError { line_number: s.line as usize, kind: step_error_kind(gs, i) }]
    } else {
        Seq::empty()
    }
}

/// The errors that scanning reports from position `i`, in order.
pub open spec fn scan_errors_from(gs: Seq<Seq<char>>, i: int, line: int) -> Seq<ScanError>
    decreases gs.len() - i,
    via scan_errors_from_decreases
{
    if i < 0 || i >= gs.len() {
        Seq::empty()
    } else {
        let s = step(gs, i, line);
        reported(gs, i, s) + scan_errors_from(gs, s.next, s.line)
    }
}

#[via_fn]
proof fn scan_errors_from_decreases(gs: Seq<Seq<char>>, i: int, line: int) {
    if 0 <= i < gs.len() {
        lemma_step(gs, i, line);
    }
}

/// The result of scanning a whole sequence of graphemes.
pub open spec fn scan_spec(gs: Seq<Seq<char>>) -> (Seq<TokenModel>, bool) {
    scan_from(gs, 0, 1)
}

/// Whether the grapheme is exactly the character `c`.
pub fn is_single(g: &Vec<char>, c: char) -> (r: bool)
    ensures
        r == single(g@, c),
{
    let r = g.len() == 1 && g[0] == c;
    assert(r ==> g@ =~= seq![c]);
    r
}

pub fn is_newline(g: &Vec<char>) -> (r: bool)
    ensures
        r == newline(g@),
{
    is_single(g, '\n')
}

/// Whether every character of the grapheme is whitespace.
pub fn is_whitespace(g: &Vec<char>) -> (r: bool)
    ensures
        r == whitespace(g@),
{
    let mut i: usize = 0;
    while i < g.len()
        invariant
            i <= g@.len(),
            forall|j: int| 0 <= j < i ==> is_unicode_whitespace(#[trigger] g@[j]),
        decreases g@.len() - i,
    {
        if !char_is_whitespace(g[i]) {
            return false;
        }
        i = i + 1;
    }
    true
}

/// Whether the grapheme is one ASCII digit.
pub fn is_digit(g: &Vec<char>) -> (r: bool)
    ensures
        r == digit(g@),
{
    g.len() == 1 && '0' <= g[0] && g[0] <= '9'
}

pub fn is_identifier_head(g: &Vec<char>) -> (r: bool)
    ensures
        r == identifier_head(g@),
{
    let mut i: usize = 0;
    while i < g.len()
        invariant
            i <= g@.len(),
            forall|j: int| 0 <= j < i ==> is_unicode_alphabetic(#[trigger] g@[j]) || g@[j] == '_',
        decreases g@.len() - i,
    {
        if !(char_is_alphabetic(g[i]) || g[i] == '_') {
            return false;
        }
        i = i + 1;
    }
    true
}

pub fn is_identifier_tail(g: &Vec<char>) -> (r: bool)
    ensures
        r == identifier_tail(g@),
{
    let mut i: usize = 0;
    while i < g.len()
        invariant
            i <= g@.len(),
            forall|j: int| 0 <= j < i ==> is_unicode_alphanumeric(#[trigger] g@[j]) || g@[j] == '_',
        decreases g@.len() - i,
    {
        if !(char_is_alphanumeric(g[i]) || g[i] == '_') {
            return false;
        }
        i = i + 1;
    }
    true
}

/// The punctuation token that a grapheme stands for on its own, if any.
fn single_token(g: &Vec<char>) -> (r: Option<Token>)
    ensures
        r is Some == single_kind(g@) is Some,
        r is Some ==> r->0.kind() == single_kind(g@)->0 && r->0.text() == Seq::<char>::empty(),
{
    if is_single(g, '(') {
        Some(Token::LeftParen)
    } else if is_single(g, ')') {
        Some(Token::RightParen)
    } else if is_single(g, '{') {
        Some(Token::LeftBrace)
    } else if is_single(g, '}') {
        Some(Token::RightBrace)
    } else if is_single(g, ',') {
        Some(Token::Comma)
    } else if is_single(g, '.') {
        Some(Token::Dot)
    } else if is_single(g, '-') {
        Some(Token::Minus)
    } else if is_single(g, '+') {
        Some(Token::Plus)
    } else if is_single(g, ';') {
        Some(Token::Semicolon)
    } else if is_single(g, '*') {
        Some(Token::Star)
    } else {
        None
    }
}

/// The keyword token spelled by `t`, or an identifier token holding `t`.
fn token_from_identifier(t: &Vec<char>) -> (r: Token)
    ensures
        keyword_kind(t@) is Some ==> r.kind() == keyword_kind(t@)->0 && r.text() == Seq::<char>::empty(),
        keyword_kind(t@) is None ==> r.kind() == TokenKind::Identifier && r.text() == t@,
{
    if same_chars(t.as_slice(), &['a', 'n', 'd']) {
        Token::And
    } else if same_chars(t.as_slice(), &['c', 'l', 'a', 's', 's']) {
        Token::Class
    } else if same_chars(t.as_slice(), &['e', 'l', 's', 'e']) {
        Token::Else
    } else if same_chars(t.as_slice(), &['f', 'a', 'l', 's', 'e']) {
        Token::False
    } else if same_chars(t.as_slice(), &['f', 'o', 'r']) {
        Token::For
    } else if same_chars(t.as_slice(), &['f', 'u', 'n']) {
        Token::Fun
    } else if same_chars(t.as_slice(), &['i', 'f']) {
        Token::If
    } else if same_chars(t.as_slice(), &['n', 'i', 'l']) {
        Token::Nil
    } else if same_chars(t.as_slice(), &['o', 'r']) {
        Token::Or
    } else if same_chars(t.as_slice(), &['p', 'r', 'i', 'n', 't']) {
        Token::Print
    } else if same_chars(t.as_slice(), &['r', 'e', 't', 'u', 'r', 'n']) {
        Token::Return
    } else if same_chars(t.as_slice(), &['s', 'u', 'p', 'e', 'r']) {
        Token::Super
    } else if same_chars(t.as_slice(), &['t', 'h', 'i', 's']) {
        Token::This
    } else if same_chars(t.as_slice(), &['t', 'r', 'u', 'e']) {
        Token::True
    } else if same_chars(t.as_slice(), &['v', 'a', 'r']) {
        Token::Var
    } else if same_chars(t.as_slice(), &['w', 'h', 'i', 'l', 'e']) {
        Token::While
    } else {
        Token::Identifier { identifier: string_of(t) }
    }
}

/// Scans source text into tokens, one grapheme cluster at a time, recording
/// lexical errors as it goes and in a sticky flag.
#[derive(Debug)]
pub struct Scanner {
    graphemes: Vec<Vec<char>>,
    current: usize,
    line_number: usize,
    tokens: Vec<AnnotatedToken>,
    has_error: bool,
    errors: Vec<ScanError>,
}

impl Scanner {
    /// The grapheme clusters being scanned.
    pub closed spec fn source(&self) -> Seq<Seq<char>> {
        self.graphemes@.map_values(|g: Vec<char>| g@)
    }

    /// The tokens produced so far.
    pub closed spec fn scanned(&self) -> Seq<TokenModel> {
        models(self.tokens@)
    }

    /// Whether a lexical error has been reported.
    pub closed spec fn error_flag(&self) -> bool {
        self.has_error
    }

    /// The lexical errors reported so far.
    pub closed spec fn reported_errors(&self) -> Seq<ScanError> {
        self.errors@
    }

    spec fn inv(&self) -> bool {
        &&& self.current <= self.graphemes@.len() < usize::MAX
        &&& 1 <= self.line_number <= self.current + 1
    }

    pub fn new(source: &str) -> (s: Scanner)
        ensures
            s.source() == graphemes_of(source@),
            s.scanned() == Seq::<TokenModel>::empty(),
            !s.error_flag(),
            s.reported_errors() == Seq::<ScanError>::empty(),
    {
        Scanner::from_graphemes(split_graphemes(source))
    }

    /// A scanner over the given grapheme clusters.
    pub fn from_graphemes(graphemes: Vec<Vec<char>>) -> (s: Scanner)
        ensures
            s.source() == graphemes@.map_values(|g: Vec<char>| g@),
            s.scanned() == Seq::<TokenModel>::empty(),
            !s.error_flag(),
            s.reported_errors() == Seq::<ScanError>::empty(),
    {
        let s = Scanner {
            graphemes,
            current: 0,
            line_number: 1,
            tokens: Vec::new(),
            has_error: false,
            errors: Vec::new(),
        };
        assert(s.scanned() =~= Seq::<TokenModel>::empty());
        s
    }

    /// Scans the whole source. The result always ends with exactly one end
    /// marker; lexical errors set the error flag and contribute no token.
    pub fn scan_tokens(&mut self) -> (r: &Vec<AnnotatedToken>)
        ensures
            final(self).source() == old(self).source(),
            models(r@) == final(self).scanned(),
            old(self).source().len() < usize::MAX ==> (final(self).scanned(), final(self).error_flag())
                == scan_spec(old(self).source()),
            old(self).source().len() < usize::MAX ==> final(self).reported_errors() == scan_errors_from(
                old(self).source(),
                0,
                1,
            ),
            old(self).source().len() >= usize::MAX ==> final(self).error_flag() && final(self).scanned()
                == seq![TokenModel { kind: TokenKind::EOF, text: Seq::empty(), line: 1 }]
                && final(self).reported_errors() == Seq::<ScanError>::empty(),
            r@.len() >= 1,
            r@.last().model().kind == TokenKind::EOF,
            forall|j: int| 0 <= j < r@.len() - 1 ==> (#[trigger] r@[j]).model().kind != TokenKind::EOF,
    {
        self.current = 0;
        self.line_number = 1;
        self.tokens = Vec::new();
        self.has_error = false;
        self.errors = Vec::new();
        if self.graphemes.len() == usize::MAX {
            self.has_error = true;
            self.add_token(Token::EOF);
            assert(self.scanned() =~= seq![TokenModel { kind: TokenKind::EOF, text: Seq::empty(), line: 1 }]);
            assert(self.tokens@[0].model() == self.scanned()[0]);
            return &self.tokens;
        }
        let ghost gs = self.source();
        assert(self.scanned() + scan_from(gs, 0, 1).0 =~= scan_spec(gs).0);
        assert(self.errors@ + scan_errors_from(gs, 0, 1) =~= scan_errors_from(gs, 0, 1));
        let mut more = true;
        while more
            invariant
                self.inv(),
                self.source() == gs,
                !more ==> self.current == gs.len(),
                self.scanned() + scan_from(gs, self.current as int, self.line_number as int).0
                    == scan_spec(gs).0,
                (self.has_error || scan_from(gs, self.current as int, self.line_number as int).1)
                    == scan_spec(gs).1,
                self.errors@ + scan_errors_from(gs, self.current as int, self.line_number as int)
                    == scan_errors_from(gs, 0, 1),
            decreases gs.len() - self.current + if more { 1int } else { 0int },
        {
            let ghost cur = self.current as int;
            let ghost line = self.line_number as int;
            let ghost before = self.scanned();
            let ghost errors_before = self.errors@;
            proof {
                if cur < gs.len() {
                    lemma_step(gs, cur, line);
                }
            }
            more = self.scan_token();
            proof {
                if more {
                    assert(self.scanned() + scan_from(gs, self.current as int, self.line_number as int).0
                        =~= before + scan_from(gs, cur, line).0);
                    assert(self.errors@ + scan_errors_from(gs, self.current as int, self.line_number as int)
                        =~= errors_before + scan_errors_from(gs, cur, line));
                }
            }
        }
        let ghost before = self.scanned();
        self.add_token(Token::EOF);
        assert(self.scanned() =~= before + scan_from(gs, self.current as int, self.line_number as int).0);
        assert(self.errors@ =~= scan_errors_from(gs, 0, 1));
        proof {
            lemma_one_end_marker(gs, 0, 1);
            assert forall|j: int| 0 <= j < self.tokens@.len() implies
                (#[trigger] self.tokens@[j]).model() == self.scanned()[j] by {}
        }
        &self.tokens
    }

    /// The tokens produced and the errors reported, taken out of the scanner.
    pub fn into_parts(self) -> (r: (Vec<AnnotatedToken>, Vec<ScanError>))
        ensures
            models(r.0@) == self.scanned(),
            r.1@ == self.reported_errors(),
    {
        (self.tokens, self.errors)
    }

    /// The lexical errors reported, in order.
    pub fn errors(&self) -> (r: &Vec<ScanError>)
        ensures
            r@ == self.reported_errors(),
    {
        &self.errors
    }

    pub fn has_error(&self) -> (r: bool)
        ensures
            r == self.error_flag(),
    {
        self.has_error
    }

    /// Scans one token, or skips one run of graphemes; `false` at the end.
    fn scan_token(&mut self) -> (more: bool)
        requires
            old(self).inv(),
        ensures
            final(self).inv(),
            final(self).graphemes == old(self).graphemes,
            more == (old(self).current < old(self).graphemes@.len()),
            !more ==> *final(self) == *old(self),
            more ==> ({
                let s = step(old(self).source(), old(self).current as int, old(self).line_number as int);
                &&& final(self).current == s.next
                &&& final(self).line_number == s.line
                &&& final(self).scanned() == old(self).scanned() + produced(s)
                &&& final(self).has_error == (old(self).has_error || s.error)
                &&& final(self).errors@ == old(self).errors@ + reported(
                    old(self).source(),
                    old(self).current as int,
                    s,
                )
            }),
    {
        if self.current >= self.graphemes.len() {
            return false;
        }
        let ghost gs = self.source();
        let start = self.current;
        proof {
            lemma_step(gs, start as int, self.line_number as int);
        }
        self.advance();
        if let Some(t) = single_token(&self.graphemes[start]) {
            self.add_token(t);
        } else if is_single(&self.graphemes[start], '!') {
            if self.advance_if_next_matches('=') {
                self.add_token(Token::BangEqual);
            } else {
                self.add_token(Token::Bang);
            }
        } else if is_single(&self.graphemes[start], '=') {
            if self.advance_if_next_matches('=') {
                self.add_token(Token::EqualEqual);
            } else {
                self.add_token(Token::Equal);
            }
        } else if is_single(&self.graphemes[start], '<') {
            if self.advance_if_next_matches('=') {
                self.add_token(Token::LessEqual);
            } else {
                self.add_token(Token::Less);
            }
        } else if is_single(&self.graphemes[start], '>') {
            if self.advance_if_next_matches('=') {
                self.add_token(Token::GreaterEqual);
            } else {
                self.add_token(Token::Greater);
            }
        } else if is_single(&self.graphemes[start], '/') {
            if self.advance_if_next_matches('/') {
                self.advance_comment();
            } else {
                self.add_token(Token::Slash);
            }
        } else if is_single(&self.graphemes[start], '"') {
            if self.advance_string() {
                self.add_string_token(start);
            }
        } else if is_newline(&self.graphemes[start]) {
            self.line_number = self.line_number + 1;
        } else if is_whitespace(&self.graphemes[start]) {
        } else if is_digit(&self.graphemes[start]) {
            self.advance_number();
            self.add_number_token(start);
        } else if is_identifier_head(&self.graphemes[start]) {
            self.advance_identifier();
            self.add_identifier_token(start);
        } else {
            self.report_error(ScanErrorKind::UnexpectedCharacter);
        }
        true
    }

    /// The grapheme at the cursor, if any.
    fn peek(&self) -> (r: Option<&Vec<char>>)
        ensures
            r is Some == (self.current < self.graphemes@.len()),
            r is Some ==> r->0@ == self.source()[self.current as int],
    {
        if self.current < self.graphemes.len() {
            Some(&self.graphemes[self.current])
        } else {
            None
        }
    }

    /// The grapheme after the one at the cursor, if any.
    fn double_peek(&self) -> (r: Option<&Vec<char>>)
        requires
            self.current < self.graphemes@.len(),
        ensures
            r is Some == (self.current + 1 < self.graphemes@.len()),
            r is Some ==> r->0@ == self.source()[self.current + 1],
    {
        let len = self.graphemes.len();
        if self.current < len - 1 {
            Some(&self.graphemes[self.current + 1])
        } else {
            None
        }
    }

    fn advance(&mut self)
        requires
            old(self).current < old(self).graphemes@.len(),
        ensures
            *final(self) == (Scanner { current: (old(self).current + 1) as usize, ..*old(self) }),
    {
        let len = self.graphemes.len();
        assert(self.current < len);
        self.current = self.current + 1;
    }

    /// Consumes the grapheme at the cursor if it is exactly `c`.
    fn advance_if_next_matches(&mut self, c: char) -> (r: bool)
        requires
            old(self).current <= old(self).graphemes@.len(),
        ensures
            r == (old(self).current < old(self).graphemes@.len()
                && single(old(self).source()[old(self).current as int], c)),
            r ==> *final(self) == (Scanner { current: (old(self).current + 1) as usize, ..*old(self) }),
            !r ==> *final(self) == *old(self),
    {
        let matches = match self.peek() {
            Some(g) => is_single(g, c),
            None => false,
        };
        if matches {
            self.advance();
        }
        matches
    }

    /// Consumes a line comment up to, not including, the next newline.
    fn advance_comment(&mut self)
        requires
            old(self).current <= old(self).graphemes@.len(),
        ensures
            *final(self) == (Scanner {
                current: comment_end(old(self).source(), old(self).current as int) as usize,
                ..*old(self)
            }),
    {
        let ghost gs = self.source();
        let ghost from = self.current as int;
        proof {
            lemma_comment_end(gs, from);
        }
        while self.current < self.graphemes.len() && !is_newline(&self.graphemes[self.current])
            invariant
                self.graphemes == old(self).graphemes,
                gs == self.source(),
                from <= self.current <= gs.len(),
                comment_end(gs, self.current as int) == comment_end(gs, from),
                *self == (Scanner { current: self.current, ..*old(self) }),
            decreases gs.len() - self.current,
        {
            self.advance();
        }
    }

    /// Consumes the rest of a string literal through its closing quotation
    /// mark, counting newlines; reports an error and returns `false` when the
    /// input ends first.
    fn advance_string(&mut self) -> (r: bool)
        requires
            old(self).inv(),
        ensures
            ({
                let gs = old(self).source();
                let k = string_close(gs, old(self).current as int);
                &&& final(self).inv()
                &&& final(self).graphemes == old(self).graphemes
                &&& final(self).tokens == old(self).tokens
                &&& r ==> final(self).errors == old(self).errors
                &&& !r ==> final(self).errors@ == old(self).errors@.push(
                    ScanError { line_number: final(self).line_number, kind: ScanErrorKind::UnterminatedString },
                )
                &&& final(self).line_number == old(self).line_number + newlines_in(gs, old(self).current as int, k)
                &&& r == (k < gs.len())
                &&& r ==> final(self).current == k + 1 && final(self).has_error == old(self).has_error
                &&& !r ==> final(self).current == gs.len() && final(self).has_error
            }),
    {
        let ghost gs = self.source();
        let ghost from = self.current as int;
        proof {
            lemma_string_close(gs, from);
        }
        while self.current < self.graphemes.len() && !is_single(&self.graphemes[self.current], '"')
            invariant
                self.inv(),
                self.graphemes == old(self).graphemes,
                self.tokens == old(self).tokens,
                self.has_error == old(self).has_error,
                self.errors == old(self).errors,
                gs == self.source(),
                from <= self.current <= gs.len(),
                string_close(gs, self.current as int) == string_close(gs, from),
                self.line_number == old(self).line_number + newlines_in(gs, from, self.current as int),
            decreases gs.len() - self.current,
        {
            if is_newline(&self.graphemes[self.current]) {
                self.line_number = self.line_number + 1;
            }
            self.advance();
        }
        if self.peek().is_none() {
            self.report_error(ScanErrorKind::UnterminatedString);
            return false;
        }
        self.advance();
        true
    }

    /// Consumes the rest of a number: its digits, then a fraction only where
    /// the `.` is followed by a digit.
    fn advance_number(&mut self)
        requires
            old(self).current >= 1,
            old(self).current <= old(self).graphemes@.len(),
        ensures
            *final(self) == (Scanner {
                current: number_end(old(self).source(), old(self).current - 1) as usize,
                ..*old(self)
            }),
    {
        let ghost gs = self.source();
        let ghost from = self.current as int;
        proof {
            lemma_digits_end(gs, from);
        }
        while self.current < self.graphemes.len() && is_digit(&self.graphemes[self.current])
            invariant
                gs == self.source(),
                from <= self.current <= gs.len(),
                digits_end(gs, self.current as int) == digits_end(gs, from),
                *self == (Scanner { current: self.current, ..*old(self) }),
            decreases gs.len() - self.current,
        {
            self.advance();
        }
        let dot = match self.peek() {
            Some(g) => is_single(g, '.'),
            None => false,
        };
        if dot {
            let after_dot = match self.double_peek() {
                Some(g) => is_digit(g),
                None => false,
            };
            if after_dot {
                self.advance();
                let ghost mid = self.current as int;
                proof {
                    lemma_digits_end(gs, mid);
                }
                while self.current < self.graphemes.len() && is_digit(&self.graphemes[self.current])
                    invariant
                        gs == self.source(),
                        mid <= self.current <= gs.len(),
                        digits_end(gs, self.current as int) == digits_end(gs, mid),
                        *self == (Scanner { current: self.current, ..*old(self) }),
                    decreases gs.len() - self.current,
                {
                    self.advance();
                }
            }
        }
    }

    /// Consumes the graphemes that continue an identifier.
    fn advance_identifier(&mut self)
        requires
            old(self).current <= old(self).graphemes@.len(),
        ensures
            *final(self) == (Scanner {
                current: tail_end(old(self).source(), old(self).current as int) as usize,
                ..*old(self)
            }),
    {
        let ghost gs = self.source();
        let ghost from = self.current as int;
        proof {
            lemma_tail_end(gs, from);
        }
        while self.current < self.graphemes.len() && is_identifier_tail(&self.graphemes[self.current])
            invariant
                gs == self.source(),
                from <= self.current <= gs.len(),
                tail_end(gs, self.current as int) == tail_end(gs, from),
                *self == (Scanner { current: self.current, ..*old(self) }),
            decreases gs.len() - self.current,
        {
            self.advance();
        }
    }

    fn add_token(&mut self, token: Token)
        ensures
            final(self).scanned() == old(self).scanned().push(
                TokenModel { kind: token.kind(), text: token.text(), line: old(self).line_number as int },
            ),
            final(self).graphemes == old(self).graphemes,
            final(self).current == old(self).current,
            final(self).line_number == old(self).line_number,
            final(self).has_error == old(self).has_error,
            final(self).errors == old(self).errors,
    {
        self.tokens.push(AnnotatedToken { token, line_number: self.line_number });
        assert(self.scanned() =~= old(self).scanned().push(
            TokenModel { kind: token.kind(), text: token.text(), line: old(self).line_number as int },
        ));
    }

    /// The characters of the graphemes `lo..hi`.
    fn chars_between(&self, lo: usize, hi: usize) -> (r: Vec<char>)
        requires
            lo <= hi <= self.graphemes@.len(),
        ensures
            r@ == joined(self.source(), lo as int, hi as int),
    {
        let mut r: Vec<char> = Vec::new();
        let mut i = lo;
        while i < hi
            invariant
                lo <= i <= hi <= self.graphemes@.len(),
                r@ == joined(self.source(), lo as int, i as int),
            decreases hi - i,
        {
            let g = &self.graphemes[i];
            let mut j: usize = 0;
            let ghost base = r@;
            while j < g.len()
                invariant
                    j <= g@.len(),
                    r@ == base + g@.subrange(0, j as int),
                decreases g@.len() - j,
            {
                r.push(g[j]);
                j = j + 1;
                assert(r@ =~= base + g@.subrange(0, j as int));
            }
            assert(g@.subrange(0, g@.len() as int) =~= g@);
            i = i + 1;
        }
        r
    }

    /// The text of the graphemes `lo..hi`.
    fn text_between(&self, lo: usize, hi: usize) -> (r: String)
        requires
            lo <= hi <= self.graphemes@.len(),
        ensures
            r@ == joined(self.source(), lo as int, hi as int),
    {
        let mut r = String::new();
        let mut i = lo;
        while i < hi
            invariant
                lo <= i <= hi <= self.graphemes@.len(),
                r@ == joined(self.source(), lo as int, i as int),
            decreases hi - i,
        {
            append_chars(&mut r, &self.graphemes[i]);
            i = i + 1;
        }
        r
    }

    fn add_number_token(&mut self, start: usize)
        requires
            start <= old(self).current <= old(self).graphemes@.len(),
        ensures
            final(self).scanned() == old(self).scanned().push(TokenModel {
                kind: TokenKind::Number,
                text: joined(old(self).source(), start as int, old(self).current as int),
                line: old(self).line_number as int,
            }),
            final(self).graphemes == old(self).graphemes,
            final(self).current == old(self).current,
            final(self).line_number == old(self).line_number,
            final(self).has_error == old(self).has_error,
            final(self).errors == old(self).errors,
    {
        let lexeme = self.text_between(start, self.current);
        self.add_token(Token::Number { lexeme });
    }

    fn add_identifier_token(&mut self, start: usize)
        requires
            start <= old(self).current <= old(self).graphemes@.len(),
        ensures
            ({
                let t = joined(old(self).source(), start as int, old(self).current as int);
                let m = match keyword_kind(t) {
                    Some(k) => TokenModel { kind: k, text: Seq::empty(), line: old(self).line_number as int },
                    None => TokenModel { kind: TokenKind::Identifier, text: t, line: old(self).line_number as int },
                };
                final(self).scanned() == old(self).scanned().push(m)
            }),
            final(self).graphemes == old(self).graphemes,
            final(self).current == old(self).current,
            final(self).line_number == old(self).line_number,
            final(self).has_error == old(self).has_error,
            final(self).errors == old(self).errors,
    {
        let identifier = self.chars_between(start, self.current);
        self.add_token(token_from_identifier(&identifier));
    }

    fn add_string_token(&mut self, start: usize)
        requires
            start <= old(self).current <= old(self).graphemes@.len(),
        ensures
            final(self).scanned() == old(self).scanned().push(TokenModel {
                kind: TokenKind::String,
                text: joined(old(self).source(), start as int, old(self).current as int),
                line: old(self).line_number as int,
            }),
            final(self).graphemes == old(self).graphemes,
            final(self).current == old(self).current,
            final(self).line_number == old(self).line_number,
            final(self).has_error == old(self).has_error,
            final(self).errors == old(self).errors,
    {
        let quoted_str = self.text_between(start, self.current);
        self.add_token(Token::String { quoted_str });
    }

    fn report_error(&mut self, kind: ScanErrorKind)
        ensures
            final(self).graphemes == old(self).graphemes,
            final(self).current == old(self).current,
            final(self).line_number == old(self).line_number,
            final(self).tokens == old(self).tokens,
            final(self).has_error,
            final(self).errors@ == old(self).errors@.push(
                ScanError { line_number: old(self).line_number, kind },
            ),
    {
        self.errors.push(ScanError { line_number: self.line_number, kind });
        self.has_error = true;
    }
}

} // verus!
