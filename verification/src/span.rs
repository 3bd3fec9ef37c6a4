//! Source positions: byte offsets of a region and the line and column where it starts.
use vstd::prelude::*;
use crate::text::{push_char, push_str};

verus! {

/// A region of source text: the byte offsets `[start, end)` and the 1-based
/// line and column of its first character.
#[derive(Debug, Clone, Copy, PartialEq, Eq, Structural)]
pub struct Span {
    pub start: usize,
    pub end: usize,
    pub line: usize,
    pub column: usize,
}

/// The region that covers both `a` and `b`, positioned where `a` starts.
pub open spec fn merge_spec(a: Span, b: Span) -> Span {
    Span {
        start: if a.start <= b.start { a.start } else { b.start },
        end: if a.end >= b.end { a.end } else { b.end },
        line: a.line,
        column: a.column,
    }
}

impl Span {
    pub fn new(start: usize, end: usize, line: usize, column: usize) -> (s: Span)
        ensures
            s == (Span { start, end, line, column }),
    {
        Span { start, end, line, column }
    }

    /// The smallest region that covers both spans, starting at `self`'s line
    /// and column.
    pub fn merge(self, other: Span) -> (s: Span)
        ensures
            s == merge_spec(self, other),
    {
        Span {
            start: if self.start <= other.start { self.start } else { other.start },
            end: if self.end >= other.end { self.end } else { other.end },
            line: self.line,
            column: self.column,
        }
    }
}

impl Default for Span {
    fn default() -> (s: Span)
        ensures
            s == (Span { start: 0, end: 0, line: 0, column: 0 }),
    {
        Span { start: 0, end: 0, line: 0, column: 0 }
    }
}

/// The ASCII digit of `d` (below ten).
pub open spec fn ascii_digit(d: nat) -> char {
    if d == 0 { '0' } else if d == 1 { '1' } else if d == 2 { '2' } else if d == 3 { '3' } else if d == 4 {
        '4'
    } else if d == 5 { '5' } else if d == 6 { '6' } else if d == 7 { '7' } else if d == 8 { '8' } else { '9' }
}

/// `n` in ASCII decimal digits, without leading zeros.
pub open spec fn decimal(n: nat) -> Seq<char>
    decreases n,
{
    if n < 10 {
        seq![ascii_digit(n)]
    } else {
        decimal(n / 10).push(ascii_digit(n % 10))
    }
}

/// How a span is shown: its line and column.
pub open spec fn span_text(s: Span) -> Seq<char> {
    decimal(s.line as nat) + ":"@ + decimal(s.column as nat)
}

fn digit_of(d: usize) -> (c: char)
    requires
        d < 10,
    ensures
        c == ascii_digit(d as nat),
{
    if d == 0 { '0' } else if d == 1 { '1' } else if d == 2 { '2' } else if d == 3 { '3' } else if d == 4 {
        '4'
    } else if d == 5 { '5' } else if d == 6 { '6' } else if d == 7 { '7' } else if d == 8 { '8' } else { '9' }
}

/// Appends `n` in decimal digits to `s`.
pub fn push_decimal(s: &mut String, n: usize)
    ensures
        final(s)@ == old(s)@ + decimal(n as nat),
    decreases n,
{
    if n >= 10 {
        push_decimal(s, n / 10);
    }
    push_char(s, digit_of(n % 10));
    proof {
        if n >= 10 {
            assert(old(s)@ + decimal(n as nat) =~= (old(s)@ + decimal((n / 10) as nat)).push(ascii_digit((n % 10) as nat)));
        } else {
            assert(old(s)@ + decimal(n as nat) =~= old(s)@.push(ascii_digit((n % 10) as nat)));
        }
    }
}

fn digit_of_u64(d: u64) -> (c: char)
    requires
        d < 10,
    ensures
        c == ascii_digit(d as nat),
{
    if d == 0 { '0' } else if d == 1 { '1' } else if d == 2 { '2' } else if d == 3 { '3' } else if d == 4 {
        '4'
    } else if d == 5 { '5' } else if d == 6 { '6' } else if d == 7 { '7' } else if d == 8 { '8' } else { '9' }
}

/// Appends `n` in decimal digits to `s`.
pub fn push_decimal_u64(s: &mut String, n: u64)
    ensures
        final(s)@ == old(s)@ + decimal(n as nat),
    decreases n,
{
    if n >= 10 {
        push_decimal_u64(s, n / 10);
    }
    push_char(s, digit_of_u64(n % 10));
    proof {
        if n >= 10 {
            assert(old(s)@ + decimal(n as nat) =~= (old(s)@ + decimal((n / 10) as nat)).push(ascii_digit((n % 10) as nat)));
        } else {
            assert(old(s)@ + decimal(n as nat) =~= old(s)@.push(ascii_digit((n % 10) as nat)));
        }
    }
}

impl Span {
    /// How this span is shown: `line:column`.
    pub fn text(&self) -> (r: String)
        ensures
            r@ == span_text(*self),
    {
        let mut r = String::new();
        push_decimal(&mut r, self.line);
        push_str(&mut r, ":");
        push_decimal(&mut r, self.column);
        proof {
            assert(r@ =~= span_text(*self));
        }
        r
    }
}

} // verus!
