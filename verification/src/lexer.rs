//! The Devanagari lexer: source text to tokens.
//!
//! The model: the source is a sequence of characters; a position in it is a
//! character index with the line and column of that character. `lex_from`
//! says which tokens (or which error) the text from a position gives.
use vstd::prelude::*;
use vstd::utf8::{encode_scalar, encode_utf8};
use vstd::string::StringSliceAdditionalSpecFns;
use crate::span::Span;
use crate::token::{Token, TokenKind, TokenKindView, TokenView, keyword_spec};
use crate::numeral::{is_devanagari_digit, is_digit_spec, parse_devanagari_i64, parse_spec};
use crate::chars::{is_white_space, white_space_spec, is_alphanumeric, unicode_alphanumeric, unicode_alphabetic, is_alphabetic, nfkc, nfkc_spec};
use crate::text::{chars_of, push_char};

pub mod laws;

verus! {

/// Errors of the lexer.
#[derive(Debug, PartialEq)]
pub enum LexError {
    /// A character that starts no token.
    UnexpectedChar(char, Span),
    /// A string literal without its closing quote.
    UnterminatedString(Span),
    /// An integer literal whose value does not fit in an `i64`.
    InvalidNumber(String, Span),
}

pub enum LexErrorView {
    UnexpectedChar(char, Span),
    UnterminatedString(Span),
    InvalidNumber(Seq<char>, Span),
}

impl View for LexError {
    type V = LexErrorView;

    open spec fn view(&self) -> LexErrorView {
        match self {
            LexError::UnexpectedChar(c, s) => LexErrorView::UnexpectedChar(*c, *s),
            LexError::UnterminatedString(s) => LexErrorView::UnterminatedString(*s),
            LexError::InvalidNumber(n, s) => LexErrorView::InvalidNumber(n@, *s),
        }
    }
}

/// Characters that may start an identifier: the Devanagari letters and `_`.
pub open spec fn ident_start_spec(c: char) -> bool {
    ('\u{0904}' <= c && c <= '\u{0939}') || ('\u{0958}' <= c && c <= '\u{0961}') || ('\u{0972}'
        <= c && c <= '\u{097F}') || c == '_'
}

/// Characters that may continue an identifier: the starting characters, vowel
/// signs, virama, anusvara, visarga, candrabindu, nukta and Devanagari digits.
pub open spec fn ident_continue_spec(c: char) -> bool {
    ident_start_spec(c) || ('\u{093E}' <= c && c <= '\u{094C}') || ('\u{0962}' <= c && c
        <= '\u{0963}') || c == '\u{094D}' || ('\u{0901}' <= c && c <= '\u{0903}') || c == '\u{093C}'
        || is_digit_spec(c)
}

pub fn is_devanagari_ident_start(c: char) -> (r: bool)
    ensures
        r == ident_start_spec(c),
{
    ('\u{0904}' <= c && c <= '\u{0939}') || ('\u{0958}' <= c && c <= '\u{0961}') || ('\u{0972}'
        <= c && c <= '\u{097F}') || c == '_'
}

pub fn is_devanagari_ident_continue(c: char) -> (r: bool)
    ensures
        r == ident_continue_spec(c),
{
    is_devanagari_ident_start(c) || ('\u{093E}' <= c && c <= '\u{094C}') || ('\u{0962}' <= c && c
        <= '\u{0963}') || c == '\u{094D}' || ('\u{0901}' <= c && c <= '\u{0903}') || c == '\u{093C}'
        || is_devanagari_digit(c)
}

// ---------------------------------------------------------------------------
// Byte offsets.
// ---------------------------------------------------------------------------

/// The number of bytes of the UTF-8 encoding of `c`.
pub open spec fn char_width(c: char) -> nat {
    encode_scalar(c as u32).len()
}

/// The byte offset of the character at index `i`: the UTF-8 length of the
/// characters before it.
pub open spec fn byte_offset(cs: Seq<char>, i: int) -> nat
    decreases i,
{
    if i <= 0 {
        0
    } else {
        byte_offset(cs, i - 1) + char_width(cs[i - 1])
    }
}

fn utf8_width(c: char) -> (w: usize)
    ensures
        w == char_width(c),
        1 <= w <= 4,
{
    proof {
        vstd::utf8::char_is_scalar(c);
    }
    let u = c as u32;
    if u <= 0x7F {
        1
    } else if u <= 0x7FF {
        2
    } else if u <= 0xFFFF {
        3
    } else {
        4
    }
}

proof fn lemma_byte_offset_monotone(cs: Seq<char>, i: int, j: int)
    requires
        0 <= i <= j,
    ensures
        byte_offset(cs, i) <= byte_offset(cs, j),
        j - i <= byte_offset(cs, j) - byte_offset(cs, i),
    decreases j - i,
{
    if i < j {
        lemma_byte_offset_monotone(cs, i, j - 1);
        vstd::utf8::char_is_scalar(cs[j - 1]);
    }
}

proof fn lemma_encode_push_len(a: Seq<char>, c: char)
    ensures
        encode_utf8(a.push(c)).len() == encode_utf8(a).len() + char_width(c),
    decreases a.len(),
{
    if a.len() == 0 {
        assert(a.push(c).drop_first() =~= Seq::<char>::empty());
        assert(encode_utf8(a.push(c).drop_first()) =~= Seq::<u8>::empty());
        assert(encode_utf8(a) =~= Seq::<u8>::empty());
        assert(encode_utf8(a.push(c)) == encode_scalar(c as u32) + encode_utf8(a.push(c).drop_first()));
    } else {
        assert(a.push(c).drop_first() =~= a.drop_first().push(c));
        lemma_encode_push_len(a.drop_first(), c);
        assert(encode_utf8(a.push(c)) == encode_scalar(a[0] as u32) + encode_utf8(a.push(c).drop_first()));
    }
}

/// The byte offset of the end of the text is the length of its UTF-8 encoding.
proof fn lemma_byte_offset_is_utf8_len(cs: Seq<char>, n: int)
    requires
        0 <= n <= cs.len(),
    ensures
        byte_offset(cs, n) == encode_utf8(cs.take(n)).len(),
    decreases n,
{
    if n == 0 {
        assert(cs.take(0) =~= Seq::<char>::empty());
    } else {
        lemma_byte_offset_is_utf8_len(cs, n - 1);
        assert(cs.take(n) =~= cs.take(n - 1).push(cs[n - 1]));
        lemma_encode_push_len(cs.take(n - 1), cs[n - 1]);
    }
}

// ---------------------------------------------------------------------------
// The model of lexing.
// ---------------------------------------------------------------------------

/// A position in the text: the index of the next character, and its line and
/// column (both counted from 1).
pub struct LexPos {
    pub pos: int,
    pub line: int,
    pub col: int,
}

/// The position after the character at `p`: a newline moves to the first
/// column of the next line, any other character one column on.
pub open spec fn adv(cs: Seq<char>, p: LexPos) -> LexPos {
    if cs[p.pos] == '\n' {
        LexPos { pos: p.pos + 1, line: p.line + 1, col: 1 }
    } else {
        LexPos { pos: p.pos + 1, line: p.line, col: p.col + 1 }
    }
}

/// The character at index `i`, if there is one.
pub open spec fn char_at(cs: Seq<char>, i: int) -> Option<char> {
    if 0 <= i < cs.len() {
        Some(cs[i])
    } else {
        None
    }
}

/// The region from the character at `s` up to the character index `end`.
pub open spec fn span_of(cs: Seq<char>, s: LexPos, end: int) -> Span {
    Span {
        start: byte_offset(cs, s.pos) as usize,
        end: byte_offset(cs, end) as usize,
        line: s.line as usize,
        column: s.col as usize,
    }
}

/// The position after the whitespace that starts at `p`.
pub open spec fn skip_ws(cs: Seq<char>, p: LexPos) -> LexPos
    decreases cs.len() - p.pos,
{
    if 0 <= p.pos < cs.len() && white_space_spec(cs[p.pos]) {
        skip_ws(cs, adv(cs, p))
    } else {
        p
    }
}

/// The position after a comment whose opening `॥` is before `p`: the comment
/// runs to the next `॥` (included) or up to the end of the line (the newline
/// is left).
pub open spec fn comment_end(cs: Seq<char>, p: LexPos) -> LexPos
    decreases cs.len() - p.pos,
{
    if p.pos < 0 || p.pos >= cs.len() {
        p
    } else if cs[p.pos] == '\u{0965}' {
        adv(cs, p)
    } else if cs[p.pos] == '\n' {
        p
    } else {
        comment_end(cs, adv(cs, p))
    }
}

/// The character that an escape `\e` stands for in a string literal.
pub open spec fn unescape(e: char) -> char {
    if e == 'n' {
        '\n'
    } else if e == 't' {
        '\t'
    } else if e == 'r' {
        '\r'
    } else {
        e
    }
}

/// Reading the body of a string literal from `p` (after the opening quote),
/// with the text read so far: the position after it, the text, and whether the
/// closing quote was found.
pub open spec fn scan_str(cs: Seq<char>, p: LexPos, acc: Seq<char>) -> (LexPos, Seq<char>, bool)
    decreases cs.len() - p.pos,
{
    if p.pos < 0 || p.pos >= cs.len() {
        (p, acc, false)
    } else if cs[p.pos] == '"' {
        (adv(cs, p), acc, true)
    } else if cs[p.pos] == '\\' {
        let q = adv(cs, p);
        if q.pos < cs.len() {
            scan_str(cs, adv(cs, q), acc.push(unescape(cs[q.pos])))
        } else {
            (q, acc, false)
        }
    } else {
        scan_str(cs, adv(cs, p), acc.push(cs[p.pos]))
    }
}

/// The end of the run of Devanagari digits that starts at `i`.
pub open spec fn digit_run_end(cs: Seq<char>, i: int) -> int
    decreases cs.len() - i,
{
    if 0 <= i < cs.len() && is_digit_spec(cs[i]) {
        digit_run_end(cs, i + 1)
    } else {
        i
    }
}

/// Characters that continue a word (identifier or keyword); ASCII digits
/// never do: numerals are written in Devanagari digits.
pub open spec fn word_continue(c: char) -> bool {
    (ident_continue_spec(c) || unicode_alphanumeric(c)) && !('0' <= c <= '9')
}

/// The end of the run of word characters that starts at `i`.
pub open spec fn word_run_end(cs: Seq<char>, i: int) -> int
    decreases cs.len() - i,
{
    if 0 <= i < cs.len() && word_continue(cs[i]) {
        word_run_end(cs, i + 1)
    } else {
        i
    }
}

/// The position `n` characters after `p`.
pub open spec fn adv_n(cs: Seq<char>, p: LexPos, n: nat) -> LexPos
    decreases n,
{
    if n == 0 {
        p
    } else {
        adv_n(cs, adv(cs, p), (n - 1) as nat)
    }
}

/// What one step of the lexer does at a position that is not at the end.
pub enum Scan {
    /// A token, and the position after it.
    Token(TokenView, LexPos),
    /// Nothing to emit (a comment), and the position after it.
    Skip(LexPos),
    /// The lexer stops with an error.
    Fail(LexErrorView),
}

pub open spec fn emit(cs: Seq<char>, kind: TokenKindView, s: LexPos, e: LexPos) -> Scan {
    Scan::Token(TokenView { kind, span: span_of(cs, s, e.pos) }, e)
}

/// The token of a one-character operator or bracket.
pub open spec fn single_punct(c: char) -> Option<TokenKindView> {
    if c == '(' {
        Some(TokenKindView::LParen)
    } else if c == ')' {
        Some(TokenKindView::RParen)
    } else if c == '[' {
        Some(TokenKindView::LBracket)
    } else if c == ']' {
        Some(TokenKindView::RBracket)
    } else if c == ',' {
        Some(TokenKindView::Comma)
    } else if c == ':' {
        Some(TokenKindView::Colon)
    } else if c == '.' {
        Some(TokenKindView::Dot)
    } else if c == '+' {
        Some(TokenKindView::Plus)
    } else if c == '*' {
        Some(TokenKindView::Star)
    } else if c == '/' {
        Some(TokenKindView::Slash)
    } else if c == '%' {
        Some(TokenKindView::Percent)
    } else {
        None
    }
}

/// An operator that is `short` alone and `long` when followed by `next`.
pub open spec fn two_char_op(
    cs: Seq<char>,
    s: LexPos,
    next: char,
    long: TokenKindView,
    short: TokenKindView,
) -> Scan {
    let a = adv(cs, s);
    if char_at(cs, a.pos) == Some(next) {
        emit(cs, long, s, adv(cs, a))
    } else {
        emit(cs, short, s, a)
    }
}

/// A number starting at `s`: digits, then `.` and digits for a decimal. An
/// integer whose value does not fit in an `i64` is an error.
pub open spec fn scan_number(cs: Seq<char>, s: LexPos) -> Scan {
    let int_end = digit_run_end(cs, s.pos);
    if char_at(cs, int_end) == Some('.') && int_end + 1 < cs.len() && is_digit_spec(
        cs[int_end + 1],
    ) {
        let frac_end = digit_run_end(cs, int_end + 1);
        let e = adv_n(cs, s, (frac_end - s.pos) as nat);
        emit(cs, TokenKindView::DevanagariFloat(cs.subrange(s.pos, frac_end)), s, e)
    } else {
        let raw = cs.subrange(s.pos, int_end);
        let e = adv_n(cs, s, (int_end - s.pos) as nat);
        match parse_spec(raw) {
            Ok(v) => emit(cs, TokenKindView::DevanagariInteger(v as i64, raw), s, e),
            Err(_) => Scan::Fail(LexErrorView::InvalidNumber(raw, span_of(cs, s, e.pos))),
        }
    }
}

/// A word starting at `s`: its NFKC form is a keyword, or else an identifier.
pub open spec fn scan_word(cs: Seq<char>, s: LexPos) -> Scan {
    let end = word_run_end(cs, s.pos + 1);
    let e = adv_n(cs, s, (end - s.pos) as nat);
    let normalized = nfkc_spec(cs.subrange(s.pos, end));
    match keyword_spec(normalized) {
        Some(k) => emit(cs, k, s, e),
        None => emit(cs, TokenKindView::Identifier(normalized), s, e),
    }
}

/// One step of the lexer at `s`, where a character is (not whitespace).
pub open spec fn scan_at(cs: Seq<char>, s: LexPos) -> Scan {
    let c = cs[s.pos];
    let a = adv(cs, s);
    if c == '\u{0965}' {
        Scan::Skip(comment_end(cs, a))
    } else if c == '\u{0964}' {
        emit(cs, TokenKindView::Danda, s, a)
    } else if single_punct(c) is Some {
        emit(cs, single_punct(c).unwrap(), s, a)
    } else if c == '-' {
        two_char_op(cs, s, '>', TokenKindView::Arrow, TokenKindView::Minus)
    } else if c == '=' {
        two_char_op(cs, s, '=', TokenKindView::EqualEqual, TokenKindView::Equal)
    } else if c == '<' {
        two_char_op(cs, s, '=', TokenKindView::LessEqual, TokenKindView::Less)
    } else if c == '>' {
        two_char_op(cs, s, '=', TokenKindView::GreaterEqual, TokenKindView::Greater)
    } else if c == '!' {
        if char_at(cs, a.pos) == Some('=') {
            emit(cs, TokenKindView::NotEqual, s, adv(cs, a))
        } else {
            Scan::Fail(LexErrorView::UnexpectedChar(c, span_of(cs, s, a.pos)))
        }
    } else if c == '"' {
        let (e, text, closed) = scan_str(cs, a, Seq::empty());
        if closed {
            emit(cs, TokenKindView::StringLiteral(text), s, e)
        } else {
            Scan::Fail(LexErrorView::UnterminatedString(span_of(cs, s, e.pos)))
        }
    } else if is_digit_spec(c) {
        scan_number(cs, s)
    } else if ident_start_spec(c) || unicode_alphabetic(c) {
        scan_word(cs, s)
    } else {
        Scan::Fail(LexErrorView::UnexpectedChar(c, span_of(cs, s, a.pos)))
    }
}

/// The token at the end of the text.
pub open spec fn eof_token(cs: Seq<char>, p: LexPos) -> TokenView {
    TokenView {
        kind: TokenKindView::Eof,
        span: Span {
            start: byte_offset(cs, cs.len() as int) as usize,
            end: byte_offset(cs, cs.len() as int) as usize,
            line: p.line as usize,
            column: p.col as usize,
        },
    }
}

/// The tokens (ending with `Eof`) that the text from `p` gives, or the first
/// error. (Every step moves forward; the guard on it never fails.)
pub open spec fn lex_from(cs: Seq<char>, p: LexPos) -> Result<Seq<TokenView>, LexErrorView>
    decreases cs.len() - p.pos,
{
    let q = skip_ws(cs, p);
    if q.pos >= cs.len() || q.pos < p.pos {
        Ok(seq![eof_token(cs, q)])
    } else {
        match scan_at(cs, q) {
            Scan::Fail(e) => Err(e),
            Scan::Skip(r) => if q.pos < r.pos <= cs.len() {
                lex_from(cs, r)
            } else {
                Ok(Seq::empty())
            },
            Scan::Token(t, r) => if q.pos < r.pos <= cs.len() {
                match lex_from(cs, r) {
                    Ok(rest) => Ok(seq![t] + rest),
                    Err(e) => Err(e),
                }
            } else {
                Ok(Seq::empty())
            },
        }
    }
}

/// The whole text lexed from its start (line 1, column 1).
pub open spec fn lex_spec(cs: Seq<char>) -> Result<Seq<TokenView>, LexErrorView> {
    lex_from(cs, LexPos { pos: 0, line: 1, col: 1 })
}

pub open spec fn tokens_view(v: Seq<Token>) -> Seq<TokenView> {
    v.map_values(|t: Token| t@)
}

// ---------------------------------------------------------------------------
// The lexer.
// ---------------------------------------------------------------------------

pub struct Lexer {
    chars: Vec<char>,
    offsets: Vec<usize>,
    cursor: usize,
    line: usize,
    column: usize,
}

impl Lexer {
    /// The characters of the source.
    pub closed spec fn text(&self) -> Seq<char> {
        self.chars@
    }

    /// The current position.
    pub closed spec fn at(&self) -> LexPos {
        LexPos { pos: self.cursor as int, line: self.line as int, col: self.column as int }
    }

    pub closed spec fn wf(&self) -> bool {
        &&& self.offsets@.len() == self.chars@.len() + 1
        &&& forall|i: int|
            0 <= i <= self.chars@.len() ==> #[trigger] self.offsets@[i] == byte_offset(
                self.chars@,
                i,
            )
        &&& byte_offset(self.chars@, self.chars@.len() as int) < usize::MAX
        &&& self.cursor <= self.chars@.len()
        &&& 1 <= self.line <= self.cursor + 1
        &&& 1 <= self.column <= self.cursor + 1
    }

    /// A lexer at the start of `source` (line 1, column 1). The UTF-8 length of
    /// the source must be below `usize::MAX`.
    pub fn new(source: &str) -> (l: Lexer)
        requires
            source.spec_bytes().len() < usize::MAX,
        ensures
            l.wf(),
            l.text() == source@,
            l.at() == (LexPos { pos: 0, line: 1, col: 1 }),
    {
        let chars = chars_of(source);
        proof {
            lemma_byte_offset_is_utf8_len(chars@, chars@.len() as int);
            assert(chars@.take(chars@.len() as int) =~= chars@);
        }
        let mut offsets: Vec<usize> = Vec::new();
        offsets.push(0);
        let mut i: usize = 0;
        while i < chars.len()
            invariant
                i <= chars@.len(),
                offsets@.len() == i + 1,
                forall|k: int| 0 <= k <= i ==> #[trigger] offsets@[k] == byte_offset(chars@, k),
                byte_offset(chars@, chars@.len() as int) < usize::MAX,
            decreases chars.len() - i,
        {
            proof {
                lemma_byte_offset_monotone(chars@, i + 1, chars@.len() as int);
            }
            let w = utf8_width(chars[i]);
            let next = offsets[i] + w;
            offsets.push(next);
            i = i + 1;
        }
        Lexer { chars, offsets, cursor: 0, line: 1, column: 1 }
    }

    fn peek(&self) -> (r: Option<char>)
        requires
            self.wf(),
        ensures
            r == char_at(self.text(), self.at().pos),
    {
        if self.cursor < self.chars.len() {
            Some(self.chars[self.cursor])
        } else {
            None
        }
    }

    fn peek_next(&self) -> (r: Option<char>)
        requires
            self.wf(),
        ensures
            r == char_at(self.text(), self.at().pos + 1),
    {
        proof {
            lemma_byte_offset_monotone(self.chars@, 0, self.chars@.len() as int);
        }
        if self.cursor + 1 < self.chars.len() {
            Some(self.chars[self.cursor + 1])
        } else {
            None
        }
    }

    /// Consumes the next character, if any, moving the line and column.
    fn advance(&mut self) -> (r: Option<char>)
        requires
            old(self).wf(),
        ensures
            final(self).wf(),
            final(self).text() == old(self).text(),
            final(self).at().pos >= old(self).at().pos,
            r == char_at(old(self).text(), old(self).at().pos),
            r is Some ==> final(self).at() == adv(old(self).text(), old(self).at()),
            r is None ==> final(self).at() == old(self).at(),
    {
        if self.cursor < self.chars.len() {
            let ch = self.chars[self.cursor];
            proof {
                lemma_byte_offset_monotone(self.chars@, 0, self.chars@.len() as int);
            }
            self.cursor = self.cursor + 1;
            if ch == '\n' {
                self.line = self.line + 1;
                self.column = 1;
            } else {
                self.column = self.column + 1;
            }
            Some(ch)
        } else {
            None
        }
    }

    /// The region from `(start_line, start_col, start_offset)` to the cursor.
    fn current_span(&self, start_line: usize, start_col: usize, start_offset: usize) -> (s: Span)
        requires
            self.wf(),
        ensures
            s == (Span {
                start: start_offset,
                end: byte_offset(self.text(), self.at().pos) as usize,
                line: start_line,
                column: start_col,
            }),
    {
        let end_offset = self.offsets[self.cursor];
        Span::new(start_offset, end_offset, start_line, start_col)
    }

    fn skip_whitespace(&mut self)
        requires
            old(self).wf(),
        ensures
            final(self).wf(),
            final(self).text() == old(self).text(),
            final(self).at() == skip_ws(old(self).text(), old(self).at()),
    {
        while self.cursor < self.chars.len() && is_white_space(self.chars[self.cursor])
            invariant
                self.wf(),
                self.text() == old(self).text(),
                skip_ws(old(self).text(), old(self).at()) == skip_ws(self.text(), self.at()),
            decreases self.chars@.len() - self.cursor,
        {
            self.advance();
        }
    }

    fn skip_comment(&mut self)
        requires
            old(self).wf(),
        ensures
            final(self).wf(),
            final(self).text() == old(self).text(),
            final(self).at() == comment_end(old(self).text(), old(self).at()),
    {
        loop
            invariant
                self.wf(),
                self.text() == old(self).text(),
                comment_end(old(self).text(), old(self).at()) == comment_end(self.text(), self.at()),
            decreases self.chars@.len() - self.cursor,
        {
            match self.peek() {
                Some(ch) => {
                    if ch == '\u{0965}' {
                        self.advance();
                        return;
                    } else if ch == '\n' {
                        return;
                    } else {
                        self.advance();
                    }
                },
                None => {
                    return;
                },
            }
        }
    }

    /// Reads the body of a string literal (the opening quote consumed).
    fn scan_string_body(&mut self) -> (r: (String, bool))
        requires
            old(self).wf(),
        ensures
            final(self).wf(),
            final(self).text() == old(self).text(),
            final(self).at().pos >= old(self).at().pos,
            scan_str(old(self).text(), old(self).at(), Seq::empty()) == (
                final(self).at(),
                r.0@,
                r.1,
            ),
    {
        let mut s = String::new();
        loop
            invariant
                self.wf(),
                self.text() == old(self).text(),
                self.at().pos >= old(self).at().pos,
                scan_str(old(self).text(), old(self).at(), Seq::empty()) == scan_str(
                    self.text(),
                    self.at(),
                    s@,
                ),
            decreases self.chars@.len() - self.cursor,
        {
            match self.peek() {
                Some(ch) => {
                    if ch == '"' {
                        self.advance();
                        return (s, true);
                    } else if ch == '\\' {
                        self.advance();
                        match self.advance() {
                            Some(escaped) => {
                                let u = if escaped == 'n' {
                                    '\n'
                                } else if escaped == 't' {
                                    '\t'
                                } else if escaped == 'r' {
                                    '\r'
                                } else {
                                    escaped
                                };
                                push_char(&mut s, u);
                            },
                            None => {},
                        }
                    } else {
                        self.advance();
                        push_char(&mut s, ch);
                    }
                },
                None => {
                    return (s, false);
                },
            }
        }
    }

    /// Consumes the run of Devanagari digits at the cursor, appending them to `buf`.
    fn take_digits(&mut self, buf: &mut String)
        requires
            old(self).wf(),
        ensures
            final(self).wf(),
            final(self).text() == old(self).text(),
            final(self).at().pos >= old(self).at().pos,
            final(self).at().pos == digit_run_end(old(self).text(), old(self).at().pos),
            final(self).at() == adv_n(
                old(self).text(),
                old(self).at(),
                (final(self).at().pos - old(self).at().pos) as nat,
            ),
            final(buf)@ == old(buf)@ + old(self).text().subrange(
                old(self).at().pos,
                final(self).at().pos,
            ),
    {
        loop
            invariant
                self.wf(),
                self.text() == old(self).text(),
                old(self).at().pos <= self.at().pos,
                digit_run_end(old(self).text(), old(self).at().pos) == digit_run_end(
                    self.text(),
                    self.at().pos,
                ),
                self.at() == adv_n(
                    old(self).text(),
                    old(self).at(),
                    (self.at().pos - old(self).at().pos) as nat,
                ),
                buf@ == old(buf)@ + old(self).text().subrange(old(self).at().pos, self.at().pos),
            decreases self.chars@.len() - self.cursor,
        {
            match self.peek() {
                Some(ch) => {
                    if is_devanagari_digit(ch) {
                        let ghost before = self.at();
                        self.advance();
                        push_char(buf, ch);
                        proof {
                            lemma_adv_n_step(old(self).text(), old(self).at(), (before.pos - old(self).at().pos) as nat);
                            assert(old(self).text().subrange(old(self).at().pos, self.at().pos) =~= old(self).text().subrange(old(self).at().pos, before.pos).push(ch));
                        }
                    } else {
                        return;
                    }
                },
                None => {
                    return;
                },
            }
        }
    }

    /// Consumes the run of word characters at the cursor, appending them to `buf`.
    fn take_word(&mut self, buf: &mut String)
        requires
            old(self).wf(),
        ensures
            final(self).wf(),
            final(self).text() == old(self).text(),
            final(self).at().pos >= old(self).at().pos,
            final(self).at().pos == word_run_end(old(self).text(), old(self).at().pos),
            final(self).at() == adv_n(
                old(self).text(),
                old(self).at(),
                (final(self).at().pos - old(self).at().pos) as nat,
            ),
            final(buf)@ == old(buf)@ + old(self).text().subrange(
                old(self).at().pos,
                final(self).at().pos,
            ),
    {
        loop
            invariant
                self.wf(),
                self.text() == old(self).text(),
                old(self).at().pos <= self.at().pos,
                word_run_end(old(self).text(), old(self).at().pos) == word_run_end(
                    self.text(),
                    self.at().pos,
                ),
                self.at() == adv_n(
                    old(self).text(),
                    old(self).at(),
                    (self.at().pos - old(self).at().pos) as nat,
                ),
                buf@ == old(buf)@ + old(self).text().subrange(old(self).at().pos, self.at().pos),
            decreases self.chars@.len() - self.cursor,
        {
            match self.peek() {
                Some(ch) => {
                    if (is_devanagari_ident_continue(ch) || is_alphanumeric(ch)) && !('0' <= ch && ch <= '9') {
                        let ghost before = self.at();
                        self.advance();
                        push_char(buf, ch);
                        proof {
                            lemma_adv_n_step(old(self).text(), old(self).at(), (before.pos - old(self).at().pos) as nat);
                            assert(old(self).text().subrange(old(self).at().pos, self.at().pos) =~= old(self).text().subrange(old(self).at().pos, before.pos).push(ch));
                        }
                    } else {
                        return;
                    }
                },
                None => {
                    return;
                },
            }
        }
    }
}

/// One step of the lexer, as the exec side produces it.
enum Step {
    Emit(Token),
    Skip,
    Fail(LexError),
}

/// The token kind of a one-character operator or bracket.
fn single_punct_kind(c: char) -> (r: Option<TokenKind>)
    ensures
        r matches Some(k) ==> single_punct(c) == Some(k@),
        r is None ==> single_punct(c) is None,
{
    if c == '(' {
        Some(TokenKind::LParen)
    } else if c == ')' {
        Some(TokenKind::RParen)
    } else if c == '[' {
        Some(TokenKind::LBracket)
    } else if c == ']' {
        Some(TokenKind::RBracket)
    } else if c == ',' {
        Some(TokenKind::Comma)
    } else if c == ':' {
        Some(TokenKind::Colon)
    } else if c == '.' {
        Some(TokenKind::Dot)
    } else if c == '+' {
        Some(TokenKind::Plus)
    } else if c == '*' {
        Some(TokenKind::Star)
    } else if c == '/' {
        Some(TokenKind::Slash)
    } else if c == '%' {
        Some(TokenKind::Percent)
    } else {
        None
    }
}

/// Moving `a` characters and then `b` is moving `a + b`.
proof fn lemma_adv_n_add(cs: Seq<char>, p: LexPos, a: nat, b: nat)
    ensures
        adv_n(cs, adv_n(cs, p, a), b) == adv_n(cs, p, a + b),
    decreases a,
{
    if a > 0 {
        lemma_adv_n_add(cs, adv(cs, p), (a - 1) as nat, b);
    }
}

impl Lexer {
    fn next_is(&self, ch: char) -> (r: bool)
        requires
            self.wf(),
        ensures
            r == (char_at(self.text(), self.at().pos) == Some(ch)),
    {
        match self.peek() {
            Some(n) => n == ch,
            None => false,
        }
    }

    /// Reads an operator that is `short` alone and `long` when the next
    /// character is `next`; the first character has been consumed from `s`.
    fn two_char(
        &mut self,
        next: char,
        long: TokenKind,
        short: TokenKind,
        start_line: usize,
        start_col: usize,
        start_offset: usize,
        Ghost(s): Ghost<LexPos>,
    ) -> (r: Step)
        requires
            old(self).wf(),
            0 <= s.pos < old(self).text().len(),
            old(self).at() == adv(old(self).text(), s),
            start_line == s.line,
            start_col == s.col,
            start_offset == byte_offset(old(self).text(), s.pos),
        ensures
            final(self).wf(),
            final(self).text() == old(self).text(),
            r matches Step::Emit(t) && two_char_op(old(self).text(), s, next, long@, short@)
                == Scan::Token(t@, final(self).at()),
    {
        if self.next_is(next) {
            self.advance();
            Step::Emit(Token { kind: long, span: self.current_span(start_line, start_col, start_offset) })
        } else {
            Step::Emit(Token { kind: short, span: self.current_span(start_line, start_col, start_offset) })
        }
    }

    /// Reads a number whose first digit has been consumed from `s`.
    fn number(
        &mut self,
        first: char,
        start_line: usize,
        start_col: usize,
        start_offset: usize,
        Ghost(s): Ghost<LexPos>,
    ) -> (r: Step)
        requires
            old(self).wf(),
            0 <= s.pos < old(self).text().len(),
            old(self).text()[s.pos] == first,
            is_digit_spec(first),
            old(self).at() == adv(old(self).text(), s),
            start_line == s.line,
            start_col == s.col,
            start_offset == byte_offset(old(self).text(), s.pos),
        ensures
            final(self).wf(),
            final(self).text() == old(self).text(),
            final(self).at().pos >= old(self).at().pos,
            r matches Step::Emit(t) ==> scan_number(old(self).text(), s) == Scan::Token(t@, final(self).at()),
            r matches Step::Fail(e) ==> scan_number(old(self).text(), s) == Scan::Fail(e@),
            r is Skip ==> false,
    {
        let ghost cs = self.text();
        let mut num_str = String::new();
        push_char(&mut num_str, first);
        proof {
            assert(adv_n(cs, s, 1) == adv_n(cs, adv(cs, s), 0));
            assert(num_str@ =~= cs.subrange(s.pos, s.pos + 1));
        }
        let ghost p1 = self.at();
        self.take_digits(&mut num_str);
        let ghost int_end = self.at().pos;
        proof {
            assert(digit_run_end(cs, s.pos) == digit_run_end(cs, s.pos + 1));
            lemma_adv_n_add(cs, s, 1, (int_end - p1.pos) as nat);
            assert(num_str@ =~= cs.subrange(s.pos, int_end));
        }
        let dot = self.next_is('.');
        let frac = match self.peek_next() {
            Some(n) => is_devanagari_digit(n),
            None => false,
        };
        if dot && frac {
            let ghost p2 = self.at();
            self.advance();
            push_char(&mut num_str, '.');
            let ghost p3 = self.at();
            proof {
                lemma_adv_n_step(cs, s, (int_end - s.pos) as nat);
                assert(num_str@ =~= cs.subrange(s.pos, int_end + 1));
            }
            self.take_digits(&mut num_str);
            proof {
                lemma_adv_n_add(cs, s, (int_end + 1 - s.pos) as nat, (self.at().pos - p3.pos) as nat);
                assert(num_str@ =~= cs.subrange(s.pos, self.at().pos));
            }
            let span = self.current_span(start_line, start_col, start_offset);
            Step::Emit(Token { kind: TokenKind::DevanagariFloat(num_str), span })
        } else {
            let span = self.current_span(start_line, start_col, start_offset);
            match parse_devanagari_i64(num_str.as_str()) {
                Ok(v) => Step::Emit(Token { kind: TokenKind::DevanagariInteger(v, num_str), span }),
                Err(_) => Step::Fail(LexError::InvalidNumber(num_str, span)),
            }
        }
    }

    /// Reads a word whose first character has been consumed from `s`.
    fn word(
        &mut self,
        first: char,
        start_line: usize,
        start_col: usize,
        start_offset: usize,
        Ghost(s): Ghost<LexPos>,
    ) -> (r: Step)
        requires
            old(self).wf(),
            0 <= s.pos < old(self).text().len(),
            old(self).text()[s.pos] == first,
            old(self).at() == adv(old(self).text(), s),
            start_line == s.line,
            start_col == s.col,
            start_offset == byte_offset(old(self).text(), s.pos),
        ensures
            final(self).wf(),
            final(self).text() == old(self).text(),
            final(self).at().pos >= old(self).at().pos,
            r matches Step::Emit(t) && scan_word(old(self).text(), s) == Scan::Token(t@, final(self).at()),
    {
        let ghost cs = self.text();
        let mut ident = String::new();
        push_char(&mut ident, first);
        proof {
            assert(adv_n(cs, s, 1) == adv_n(cs, adv(cs, s), 0));
            assert(ident@ =~= cs.subrange(s.pos, s.pos + 1));
        }
        let ghost p1 = self.at();
        self.take_word(&mut ident);
        proof {
            lemma_adv_n_add(cs, s, 1, (self.at().pos - p1.pos) as nat);
            assert(ident@ =~= cs.subrange(s.pos, self.at().pos));
        }
        let normalized = nfkc(ident.as_str());
        let span = self.current_span(start_line, start_col, start_offset);
        match TokenKind::from_keyword(normalized.as_str()) {
            Some(keyword) => Step::Emit(Token { kind: keyword, span }),
            None => Step::Emit(Token { kind: TokenKind::Identifier(normalized), span }),
        }
    }

    /// Reads one token (or skips one comment) at the cursor, which is at a
    /// character that is not whitespace.
    #[verifier::rlimit(60)]
    fn scan_token(&mut self) -> (r: Step)
        requires
            old(self).wf(),
            old(self).at().pos < old(self).text().len(),
        ensures
            final(self).wf(),
            final(self).text() == old(self).text(),
            final(self).at().pos > old(self).at().pos,
            r matches Step::Emit(t) ==> scan_at(old(self).text(), old(self).at()) == Scan::Token(t@, final(self).at()),
            r is Skip ==> scan_at(old(self).text(), old(self).at()) == Scan::Skip(final(self).at()),
            r matches Step::Fail(e) ==> scan_at(old(self).text(), old(self).at()) == Scan::Fail(e@),
    {
        let ghost cs = self.text();
        let ghost s = self.at();
        let start_line = self.line;
        let start_col = self.column;
        let start_offset = self.offsets[self.cursor];
        let c = self.chars[self.cursor];
        self.advance();
        if c == '\u{0965}' {
            proof {
                lemma_comment_end_forward(cs, self.at());
            }
            self.skip_comment();
            return Step::Skip;
        }
        if c == '\u{0964}' {
            return Step::Emit(Token { kind: TokenKind::Danda, span: self.current_span(start_line, start_col, start_offset) });
        }
        match single_punct_kind(c) {
            Some(k) => {
                return Step::Emit(Token { kind: k, span: self.current_span(start_line, start_col, start_offset) });
            },
            None => {},
        }
        if c == '-' {
            return self.two_char('>', TokenKind::Arrow, TokenKind::Minus, start_line, start_col, start_offset, Ghost(s));
        }
        if c == '=' {
            return self.two_char('=', TokenKind::EqualEqual, TokenKind::Equal, start_line, start_col, start_offset, Ghost(s));
        }
        if c == '<' {
            return self.two_char('=', TokenKind::LessEqual, TokenKind::Less, start_line, start_col, start_offset, Ghost(s));
        }
        if c == '>' {
            return self.two_char('=', TokenKind::GreaterEqual, TokenKind::Greater, start_line, start_col, start_offset, Ghost(s));
        }
        if c == '!' {
            if self.next_is('=') {
                self.advance();
                return Step::Emit(Token { kind: TokenKind::NotEqual, span: self.current_span(start_line, start_col, start_offset) });
            } else {
                return Step::Fail(LexError::UnexpectedChar(c, self.current_span(start_line, start_col, start_offset)));
            }
        }
        if c == '"' {
            let (text, closed) = self.scan_string_body();
            if closed {
                return Step::Emit(Token { kind: TokenKind::StringLiteral(text), span: self.current_span(start_line, start_col, start_offset) });
            } else {
                return Step::Fail(LexError::UnterminatedString(self.current_span(start_line, start_col, start_offset)));
            }
        }
        if is_devanagari_digit(c) {
            return self.number(c, start_line, start_col, start_offset, Ghost(s));
        }
        if is_devanagari_ident_start(c) || is_alphabetic(c) {
            return self.word(c, start_line, start_col, start_offset, Ghost(s));
        }
        Step::Fail(LexError::UnexpectedChar(c, self.current_span(start_line, start_col, start_offset)))
    }

    /// Tokenizes the rest of the source: the tokens up to and including `Eof`,
    /// or the first error.
    pub fn tokenize(&mut self) -> (r: Result<Vec<Token>, LexError>)
        requires
            old(self).wf(),
        ensures
            final(self).wf(),
            final(self).text() == old(self).text(),
            r matches Ok(v) ==> lex_from(old(self).text(), old(self).at()) == Ok::<Seq<TokenView>, LexErrorView>(tokens_view(v@)),
            r matches Err(e) ==> lex_from(old(self).text(), old(self).at()) == Err::<Seq<TokenView>, LexErrorView>(e@),
            r matches Ok(v) ==> v@.len() > 0 && v@.last().kind is Eof,
    {
        let ghost cs = self.text();
        let mut tokens: Vec<Token> = Vec::new();
        loop
            invariant
                self.wf(),
                self.text() == cs,
                cs == old(self).text(),
                lex_from(cs, old(self).at()) == (match lex_from(cs, self.at()) {
                    Ok(rest) => Ok(tokens_view(tokens@) + rest),
                    Err(e) => Err(e),
                }),
            decreases cs.len() - self.at().pos,
        {
            let ghost p = self.at();
            self.skip_whitespace();
            proof {
                lemma_skip_ws_forward(cs, p);
            }
            if self.cursor >= self.chars.len() {
                let total = self.offsets[self.chars.len()];
                let eof = Token { kind: TokenKind::Eof, span: Span::new(total, total, self.line, self.column) };
                let ghost before = tokens@;
                tokens.push(eof);
                proof {
                    assert(tokens_view(tokens@) =~= tokens_view(before) + seq![eof_token(cs, self.at())]);
                }
                return Ok(tokens);
            }
            match self.scan_token() {
                Step::Emit(t) => {
                    let ghost before = tokens@;
                    tokens.push(t);
                    proof {
                        assert(tokens_view(tokens@) =~= tokens_view(before) + seq![t@]);
                        assert(tokens_view(tokens@) + lex_from(cs, self.at())->Ok_0 =~= tokens_view(before) + (seq![t@] + lex_from(cs, self.at())->Ok_0));
                    }
                },
                Step::Skip => {},
                Step::Fail(e) => {
                    return Err(e);
                },
            }
        }
    }
}

/// A comment never ends before it starts.
proof fn lemma_comment_end_forward(cs: Seq<char>, p: LexPos)
    ensures
        comment_end(cs, p).pos >= p.pos,
    decreases cs.len() - p.pos,
{
    if 0 <= p.pos < cs.len() && cs[p.pos] != '\u{0965}' && cs[p.pos] != '\n' {
        lemma_comment_end_forward(cs, adv(cs, p));
    }
}

/// Skipping whitespace never moves backwards or past the end.
proof fn lemma_skip_ws_forward(cs: Seq<char>, p: LexPos)
    requires
        0 <= p.pos <= cs.len(),
    ensures
        p.pos <= skip_ws(cs, p).pos <= cs.len(),
    decreases cs.len() - p.pos,
{
    if 0 <= p.pos < cs.len() && white_space_spec(cs[p.pos]) {
        lemma_skip_ws_forward(cs, adv(cs, p));
    }
}

/// Moving `n + 1` characters is moving `n` and then one more.
proof fn lemma_adv_n_step(cs: Seq<char>, p: LexPos, n: nat)
    ensures
        adv_n(cs, p, n + 1) == adv(cs, adv_n(cs, p, n)),
    decreases n,
{
    if n > 0 {
        lemma_adv_n_step(cs, adv(cs, p), (n - 1) as nat);
    } else {
        assert(adv_n(cs, adv(cs, p), 0) == adv(cs, p));
    }
}

} // verus!
