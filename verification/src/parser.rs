//! The recursive-descent parser: tokens to a syntax tree, as the grammar
//! model says.
use vstd::prelude::*;
use crate::span::Span;
use crate::token::{Token, TokenKind, TokenKindView, TokenView};
use crate::lexer::tokens_view;
use crate::grammar::{ParseError, ParseErrorView, Toks, cur, kind_at, next_pos, raw_is, is_ident, expect, sva};
use crate::text::str_is;

mod expr;
mod stmt;
mod decl;
pub mod laws;

verus! {

/// A parser over the tokens of one source text, with a cursor.
pub struct Parser {
    tokens: Vec<Token>,
    cursor: usize,
}

impl Parser {
    pub closed spec fn toks(&self) -> Toks {
        tokens_view(self.tokens@)
    }

    pub closed spec fn pos(&self) -> int {
        self.cursor as int
    }

    /// The tokens end with `Eof` and the cursor is within them or just past.
    pub open spec fn wf(&self) -> bool {
        &&& self.toks().len() > 0
        &&& self.toks()[self.toks().len() - 1].kind == TokenKindView::Eof
        &&& 0 <= self.pos() <= self.toks().len()
    }

    /// A parser at the start of `tokens`, which end with the `Eof` token (as the
    /// lexer's output does).
    pub fn new(tokens: Vec<Token>) -> (r: Parser)
        requires
            tokens@.len() > 0,
            tokens@.last().kind@ == TokenKindView::Eof,
        ensures
            r.wf(),
            r.toks() == tokens_view(tokens@),
            r.pos() == 0,
    {
        Parser { tokens, cursor: 0 }
    }

    proof fn lemma_toks(&self)
        requires
            self.wf(),
        ensures
            self.toks().len() == self.tokens@.len(),
            forall|i: int| 0 <= i < self.tokens@.len() ==> #[trigger] self.toks()[i] == self.tokens@[i]@,
            self.toks()[self.toks().len() - 1].kind == TokenKindView::Eof,
    {
    }

    /// What a well-formed parser says of its tokens and cursor.
    pub(crate) proof fn lemma_wf(&self)
        requires
            self.wf(),
        ensures
            self.toks().len() > 0,
            0 <= self.pos() <= self.toks().len(),
            self.toks()[self.toks().len() - 1].kind == TokenKindView::Eof,
    {
    }

    pub(crate) fn current(&self) -> (r: Token)
        requires
            self.wf(),
        ensures
            r@ == cur(self.toks(), self.pos()),
    {
        proof {
            self.lemma_toks();
        }
        if self.cursor < self.tokens.len() {
            self.tokens[self.cursor].duplicate()
        } else {
            self.tokens[self.tokens.len() - 1].duplicate()
        }
    }

    pub(crate) fn check(&self, kind: &TokenKind) -> (r: bool)
        requires
            self.wf(),
        ensures
            r == (kind_at(self.toks(), self.pos()) == kind@),
    {
        proof {
            self.lemma_toks();
        }
        if self.cursor < self.tokens.len() {
            self.tokens[self.cursor].kind.same_as(kind)
        } else {
            self.tokens[self.tokens.len() - 1].kind.same_as(kind)
        }
    }

    /// Whether the token at index `i` (not past the end) has kind `kind`.
    pub(crate) fn raw_is(&self, i: usize, kind: &TokenKind) -> (r: bool)
        requires
            self.wf(),
        ensures
            r == raw_is(self.toks(), i as int, kind@),
    {
        proof {
            self.lemma_toks();
        }
        if i < self.tokens.len() {
            self.tokens[i].kind.same_as(kind)
        } else {
            false
        }
    }

    /// Whether the token at index `i` (not past the end) is an identifier.
    pub(crate) fn raw_is_ident(&self, i: usize) -> (r: bool)
        requires
            self.wf(),
        ensures
            r == (0 <= i < self.toks().len() && is_ident(self.toks()[i as int].kind)),
    {
        proof {
            self.lemma_toks();
        }
        if i < self.tokens.len() {
            match &self.tokens[i].kind {
                TokenKind::Identifier(_) => true,
                _ => false,
            }
        } else {
            false
        }
    }

    pub(crate) fn advance(&mut self) -> (r: Token)
        requires
            old(self).wf(),
        ensures
            final(self).wf(),
            final(self).toks() == old(self).toks(),
            r@ == cur(old(self).toks(), old(self).pos()),
            final(self).pos() == next_pos(old(self).toks(), old(self).pos()),
    {
        let t = self.current();
        if self.cursor < self.tokens.len() {
            self.cursor = self.cursor + 1;
        }
        t
    }

    /// Whether an identifier followed by `:` stands at the cursor (the start of
    /// a struct literal's fields).
    pub(crate) fn fields_ahead(&self) -> (r: bool)
        requires
            self.wf(),
        ensures
            r == (self.pos() + 1 < self.toks().len() && is_ident(self.toks()[self.pos()].kind)
                && self.toks()[self.pos() + 1].kind == TokenKindView::Colon),
    {
        proof {
            self.lemma_toks();
        }
        self.cursor < self.tokens.len() - 1 && self.raw_is_ident(self.cursor)
            && self.raw_is(self.cursor + 1, &TokenKind::Colon)
    }

    /// Whether `. name =` follows the token at the cursor.
    pub(crate) fn field_assign_ahead(&self) -> (r: bool)
        requires
            self.wf(),
        ensures
            r == (self.pos() + 3 < self.toks().len() && raw_is(self.toks(), self.pos() + 1, TokenKindView::Dot)
                && is_ident(self.toks()[self.pos() + 2].kind) && raw_is(self.toks(), self.pos() + 3, TokenKindView::Equal)),
    {
        proof {
            self.lemma_toks();
        }
        self.tokens.len() > 3 && self.cursor < self.tokens.len() - 3 && self.raw_is(self.cursor + 1, &TokenKind::Dot)
            && self.raw_is_ident(self.cursor + 2) && self.raw_is(self.cursor + 3, &TokenKind::Equal)
    }

    /// Whether `=` follows the token at the cursor.
    pub(crate) fn assign_ahead(&self) -> (r: bool)
        requires
            self.wf(),
        ensures
            r == (self.pos() + 1 < self.toks().len() && raw_is(self.toks(), self.pos() + 1, TokenKindView::Equal)),
    {
        proof {
            self.lemma_toks();
        }
        self.cursor < self.tokens.len() - 1 && self.raw_is(self.cursor + 1, &TokenKind::Equal)
    }

    /// Whether `:` follows the token at the cursor.
    pub(crate) fn colon_after(&self) -> (r: bool)
        requires
            self.wf(),
        ensures
            r == (self.pos() + 1 < self.toks().len() && self.toks()[self.pos() + 1].kind == TokenKindView::Colon),
    {
        proof {
            self.lemma_toks();
        }
        self.cursor < self.tokens.len() - 1 && self.raw_is(self.cursor + 1, &TokenKind::Colon)
    }

    /// Whether the name `स्व` follows the token at the cursor.
    pub(crate) fn self_name_after(&self) -> (r: bool)
        requires
            self.wf(),
        ensures
            r == (self.pos() + 1 < self.toks().len() && self.toks()[self.pos() + 1].kind == TokenKindView::Identifier(sva())),
    {
        proof {
            self.lemma_toks();
        }
        if self.cursor < self.tokens.len() - 1 {
            match &self.tokens[self.cursor + 1].kind {
                TokenKind::Identifier(s) => str_is(s.as_str(), "स्व"),
                _ => false,
            }
        } else {
            false
        }
    }

    pub(crate) fn consume(&mut self, expected: TokenKind, desc: &str) -> (r: Result<Token, ParseError>)
        requires
            old(self).wf(),
        ensures
            final(self).wf(),
            final(self).toks() == old(self).toks(),
            final(self).pos() >= old(self).pos(),
            match r {
                Ok(tok) => expect(old(self).toks(), old(self).pos(), expected@, desc@) == Ok::<(TokenView, int), ParseErrorView>((tok@, final(self).pos())),
                Err(e) => expect(old(self).toks(), old(self).pos(), expected@, desc@) == Err::<(TokenView, int), ParseErrorView>(e@),
            },
    {
        let cur = self.current();
        if cur.kind.same_as(&expected) {
            self.advance();
            Ok(cur)
        } else {
            Err(ParseError::UnexpectedToken { expected: String::from_str(desc), found: cur.kind, span: cur.span })
        }
    }
}


} // verus!
