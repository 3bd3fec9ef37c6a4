//! Expressions.
use vstd::prelude::*;
use crate::token::{Token, TokenKind, TokenKindView, TokenView};
use crate::span::Span;
use crate::ast::{expr_view, exprs_view, field_inits_view, lemma_empty_views, lemma_exprs_view_push, lemma_field_inits_view_push, Expr, ExprKind, BinaryOp, UnaryOp, ExprView};
use crate::grammar::{lemma_p_expression, lemma_p_equality_rest, lemma_p_comparison, lemma_p_comparison_rest, lemma_p_term, lemma_p_term_rest, lemma_p_factor, lemma_p_factor_rest, lemma_p_unary, lemma_p_primary, lemma_p_primary_rest, lemma_p_member, lemma_p_index, lemma_p_list, lemma_p_elements, lemma_p_init_fields, lemma_p_ident_primary, lemma_p_base, ParseError, ParseErrorView, kind_at, is_ident, p_expression, p_equality_rest, p_comparison, p_comparison_rest, p_term, p_term_rest, p_factor, p_factor_rest, p_unary, p_primary, p_primary_rest, p_member, p_index, p_list, p_elements, p_init_fields, p_ident_primary, p_base};
use crate::parser::Parser;

verus! {

impl Parser {
    pub fn parse_expression(&mut self) -> (r: Result<Expr, ParseError>)
        requires
            old(self).wf(),
        ensures
            final(self).wf(),
            final(self).toks() == old(self).toks(),
            final(self).pos() >= old(self).pos(),
            r is Ok ==> final(self).pos() > old(self).pos(),
            match r {
                Ok(x) => p_expression(old(self).toks(), old(self).pos()) == Ok::<(ExprView, int), ParseErrorView>((expr_view(x), final(self).pos())),
                Err(e) => p_expression(old(self).toks(), old(self).pos()) == Err::<(ExprView, int), ParseErrorView>(e@),
            },
        decreases old(self).toks().len() - old(self).pos(), 60int,
    {
        let ghost t = self.toks();
        let ghost p0 = self.pos();
        proof {
            lemma_p_expression(t, p0);
        }
        proof {
            self.lemma_wf();
        }
        let mut expr = match self.parse_comparison() {
            Ok(v) => v,
            Err(e) => {
                return Err(e);
            },
        };
        loop
            invariant
                self.wf(),
                self.toks() == t,
                p0 < self.pos() <= t.len(),
                t == old(self).toks(),
                p0 == old(self).pos(),
                t[t.len() - 1].kind == TokenKindView::Eof,
                p_expression(t, p0) == p_equality_rest(t, expr_view(expr), self.pos()),
            ensures
                self.wf(),
                self.toks() == t,
                p0 < self.pos() <= t.len(),
                p_expression(t, p0) == Ok::<(ExprView, int), ParseErrorView>((expr_view(expr), self.pos())),
            decreases t.len() - self.pos(),
        {
            proof {
                lemma_p_equality_rest(t, expr_view(expr), self.pos());
            }
            let op = 
            if self.check(&TokenKind::EqualEqual) {
                BinaryOp::Equal
            } else if self.check(&TokenKind::NotEqual) {
                BinaryOp::NotEqual
            } else {
                break;
            };
            self.advance();
            let right = match self.parse_comparison() {
            Ok(v) => v,
            Err(e) => {
                return Err(e);
            },
        };
            let span = expr.span.merge(right.span);
            expr = Expr { kind: ExprKind::Binary { left: Box::new(expr), op, right: Box::new(right) }, span };
        }
        Ok(expr)
    }

    fn parse_comparison(&mut self) -> (r: Result<Expr, ParseError>)
        requires
            old(self).wf(),
        ensures
            final(self).wf(),
            final(self).toks() == old(self).toks(),
            final(self).pos() >= old(self).pos(),
            r is Ok ==> final(self).pos() > old(self).pos(),
            match r {
                Ok(x) => p_comparison(old(self).toks(), old(self).pos()) == Ok::<(ExprView, int), ParseErrorView>((expr_view(x), final(self).pos())),
                Err(e) => p_comparison(old(self).toks(), old(self).pos()) == Err::<(ExprView, int), ParseErrorView>(e@),
            },
        decreases old(self).toks().len() - old(self).pos(), 59int,
    {
        let ghost t = self.toks();
        let ghost p0 = self.pos();
        proof {
            lemma_p_comparison(t, p0);
            self.lemma_wf();
        }
        let mut expr = match self.parse_term() {
            Ok(v) => v,
            Err(e) => {
                return Err(e);
            },
        };
        loop
            invariant
                self.wf(),
                self.toks() == t,
                p0 < self.pos() <= t.len(),
                t == old(self).toks(),
                p0 == old(self).pos(),
                t[t.len() - 1].kind == TokenKindView::Eof,
                p_comparison(t, p0) == p_comparison_rest(t, expr_view(expr), self.pos()),
            ensures
                self.wf(),
                self.toks() == t,
                p0 < self.pos() <= t.len(),
                p_comparison(t, p0) == Ok::<(ExprView, int), ParseErrorView>((expr_view(expr), self.pos())),
            decreases t.len() - self.pos(),
        {
            proof {
                lemma_p_comparison_rest(t, expr_view(expr), self.pos());
            }
            let op = 
            if self.check(&TokenKind::Less) {
                BinaryOp::Less
            } else if self.check(&TokenKind::LessEqual) {
                BinaryOp::LessEq
            } else if self.check(&TokenKind::Greater) {
                BinaryOp::Greater
            } else if self.check(&TokenKind::GreaterEqual) {
                BinaryOp::GreaterEq
            } else {
                break;
            };
            self.advance();
            let right = match self.parse_term() {
            Ok(v) => v,
            Err(e) => {
                return Err(e);
            },
        };
            let span = expr.span.merge(right.span);
            expr = Expr { kind: ExprKind::Binary { left: Box::new(expr), op, right: Box::new(right) }, span };
        }
        Ok(expr)
    }

    fn parse_term(&mut self) -> (r: Result<Expr, ParseError>)
        requires
            old(self).wf(),
        ensures
            final(self).wf(),
            final(self).toks() == old(self).toks(),
            final(self).pos() >= old(self).pos(),
            r is Ok ==> final(self).pos() > old(self).pos(),
            match r {
                Ok(x) => p_term(old(self).toks(), old(self).pos()) == Ok::<(ExprView, int), ParseErrorView>((expr_view(x), final(self).pos())),
                Err(e) => p_term(old(self).toks(), old(self).pos()) == Err::<(ExprView, int), ParseErrorView>(e@),
            },
        decreases old(self).toks().len() - old(self).pos(), 58int,
    {
        let ghost t = self.toks();
        let ghost p0 = self.pos();
        proof {
            lemma_p_term(t, p0);
            self.lemma_wf();
        }
        let mut expr = match self.parse_factor() {
            Ok(v) => v,
            Err(e) => {
                return Err(e);
            },
        };
        loop
            invariant
                self.wf(),
                self.toks() == t,
                p0 < self.pos() <= t.len(),
                t == old(self).toks(),
                p0 == old(self).pos(),
                t[t.len() - 1].kind == TokenKindView::Eof,
                p_term(t, p0) == p_term_rest(t, expr_view(expr), self.pos()),
            ensures
                self.wf(),
                self.toks() == t,
                p0 < self.pos() <= t.len(),
                p_term(t, p0) == Ok::<(ExprView, int), ParseErrorView>((expr_view(expr), self.pos())),
            decreases t.len() - self.pos(),
        {
            proof {
                lemma_p_term_rest(t, expr_view(expr), self.pos());
            }
            let op = 
            if self.check(&TokenKind::Plus) {
                BinaryOp::Add
            } else if self.check(&TokenKind::Minus) {
                BinaryOp::Sub
            } else {
                break;
            };
            self.advance();
            let right = match self.parse_factor() {
            Ok(v) => v,
            Err(e) => {
                return Err(e);
            },
        };
            let span = expr.span.merge(right.span);
            expr = Expr { kind: ExprKind::Binary { left: Box::new(expr), op, right: Box::new(right) }, span };
        }
        Ok(expr)
    }

    fn parse_factor(&mut self) -> (r: Result<Expr, ParseError>)
        requires
            old(self).wf(),
        ensures
            final(self).wf(),
            final(self).toks() == old(self).toks(),
            final(self).pos() >= old(self).pos(),
            r is Ok ==> final(self).pos() > old(self).pos(),
            match r {
                Ok(x) => p_factor(old(self).toks(), old(self).pos()) == Ok::<(ExprView, int), ParseErrorView>((expr_view(x), final(self).pos())),
                Err(e) => p_factor(old(self).toks(), old(self).pos()) == Err::<(ExprView, int), ParseErrorView>(e@),
            },
        decreases old(self).toks().len() - old(self).pos(), 57int,
    {
        let ghost t = self.toks();
        let ghost p0 = self.pos();
        proof {
            lemma_p_factor(t, p0);
            self.lemma_wf();
        }
        let mut expr = match self.parse_unary() {
            Ok(v) => v,
            Err(e) => {
                return Err(e);
            },
        };
        loop
            invariant
                self.wf(),
                self.toks() == t,
                p0 < self.pos() <= t.len(),
                t == old(self).toks(),
                p0 == old(self).pos(),
                t[t.len() - 1].kind == TokenKindView::Eof,
                p_factor(t, p0) == p_factor_rest(t, expr_view(expr), self.pos()),
            ensures
                self.wf(),
                self.toks() == t,
                p0 < self.pos() <= t.len(),
                p_factor(t, p0) == Ok::<(ExprView, int), ParseErrorView>((expr_view(expr), self.pos())),
            decreases t.len() - self.pos(),
        {
            proof {
                lemma_p_factor_rest(t, expr_view(expr), self.pos());
            }
            let op = 
            if self.check(&TokenKind::Star) {
                BinaryOp::Mul
            } else if self.check(&TokenKind::Slash) {
                BinaryOp::Div
            } else if self.check(&TokenKind::Percent) {
                BinaryOp::Mod
            } else {
                break;
            };
            self.advance();
            let right = match self.parse_unary() {
            Ok(v) => v,
            Err(e) => {
                return Err(e);
            },
        };
            let span = expr.span.merge(right.span);
            expr = Expr { kind: ExprKind::Binary { left: Box::new(expr), op, right: Box::new(right) }, span };
        }
        Ok(expr)
    }

}

impl Parser {
    fn parse_unary(&mut self) -> (r: Result<Expr, ParseError>)
        requires
            old(self).wf(),
        ensures
            final(self).wf(),
            final(self).toks() == old(self).toks(),
            final(self).pos() >= old(self).pos(),
            r is Ok ==> final(self).pos() > old(self).pos(),
            match r {
                Ok(x) => p_unary(old(self).toks(), old(self).pos()) == Ok::<(ExprView, int), ParseErrorView>((expr_view(x), final(self).pos())),
                Err(e) => p_unary(old(self).toks(), old(self).pos()) == Err::<(ExprView, int), ParseErrorView>(e@),
            },
        decreases old(self).toks().len() - old(self).pos(), 56int,
    {
        proof {
            lemma_p_unary(self.toks(), self.pos());
        }
        proof {
            self.lemma_wf();
        }
        if self.check(&TokenKind::Minus) {
            let op_tok = self.advance();
            let expr = match self.parse_unary() {
            Ok(v) => v,
            Err(e) => {
                return Err(e);
            },
        };
            let span = op_tok.span.merge(expr.span);
            return Ok(Expr { kind: ExprKind::Unary { op: UnaryOp::Neg, expr: Box::new(expr) }, span });
        }
        let is_rna = self.check(&TokenKind::Rna);
        let is_cala = self.check(&TokenKind::CalaRna);
        if is_rna || is_cala {
            let op_tok = self.advance();
            let expr = match self.parse_unary() {
            Ok(v) => v,
            Err(e) => {
                return Err(e);
            },
        };
            let span = op_tok.span.merge(expr.span);
            return Ok(Expr { kind: ExprKind::Borrow { is_mut: is_cala, expr: Box::new(expr) }, span });
        }
        self.parse_primary()
    }

    fn parse_primary(&mut self) -> (r: Result<Expr, ParseError>)
        requires
            old(self).wf(),
        ensures
            final(self).wf(),
            final(self).toks() == old(self).toks(),
            final(self).pos() >= old(self).pos(),
            r is Ok ==> final(self).pos() > old(self).pos(),
            match r {
                Ok(x) => p_primary(old(self).toks(), old(self).pos()) == Ok::<(ExprView, int), ParseErrorView>((expr_view(x), final(self).pos())),
                Err(e) => p_primary(old(self).toks(), old(self).pos()) == Err::<(ExprView, int), ParseErrorView>(e@),
            },
        decreases old(self).toks().len() - old(self).pos(), 55int,
    {
        let ghost t = self.toks();
        let ghost p0 = self.pos();
        proof {
            lemma_p_primary(t, p0);
            self.lemma_wf();
        }
        let mut expr = match self.parse_base_primary() {
            Ok(v) => v,
            Err(e) => {
                return Err(e);
            },
        };
        loop
            invariant
                self.wf(),
                self.toks() == t,
                p0 < self.pos() <= t.len(),
                t == old(self).toks(),
                p0 == old(self).pos(),
                t[t.len() - 1].kind == TokenKindView::Eof,
                p_primary(t, p0) == p_primary_rest(t, expr_view(expr), self.pos()),
            ensures
                self.wf(),
                self.toks() == t,
                p0 < self.pos() <= t.len(),
                p_primary(t, p0) == Ok::<(ExprView, int), ParseErrorView>((expr_view(expr), self.pos())),
            decreases t.len() - self.pos(),
        {
            proof {
                lemma_p_primary_rest(t, expr_view(expr), self.pos());
            }
            if self.check(&TokenKind::Dot) {
                expr = match self.parse_member(expr) {
                Ok(v) => v,
            Err(e) => {
                return Err(e);
            },
        };
            } else if self.check(&TokenKind::LBracket) {
                expr = match self.parse_index(expr) {
                Ok(v) => v,
            Err(e) => {
                return Err(e);
            },
        };
            } else {
                break;
            }
        }
        Ok(expr)
    }

    /// `.member` or `.method(args)` after `target`; the dot is at the cursor.
    fn parse_member(&mut self, target: Expr) -> (r: Result<Expr, ParseError>)
        requires
            old(self).wf(),
            kind_at(old(self).toks(), old(self).pos()) == TokenKindView::Dot,
        ensures
            final(self).wf(),
            final(self).toks() == old(self).toks(),
            final(self).pos() >= old(self).pos(),
            r is Ok ==> final(self).pos() > old(self).pos(),
            match r {
                Ok(x) => p_member(old(self).toks(), expr_view(target), old(self).pos()) == Ok::<(ExprView, int), ParseErrorView>((expr_view(x), final(self).pos())),
                Err(e) => p_member(old(self).toks(), expr_view(target), old(self).pos()) == Err::<(ExprView, int), ParseErrorView>(e@),
            },
        decreases old(self).toks().len() - old(self).pos(), 53int,
    {
        proof {
            lemma_p_member(self.toks(), expr_view(target), self.pos());
            self.lemma_wf();
        }
        self.advance();
        let member = self.advance();
        let name = match member.kind {
            TokenKind::Identifier(name) => name,
            other => {
                return Err(ParseError::UnexpectedToken {
                    expected: String::from_str("क्षेत्र-नाम वा विधि-नाम (Field or method name)"),
                    found: other,
                    span: member.span,
                });
            },
        };
        if self.check(&TokenKind::LParen) {
            self.advance();
            let (args, close) = match self.parse_list(TokenKind::RParen, ")") {
                Ok(v) => v,
            Err(e) => {
                return Err(e);
            },
        };
            let span = target.span.merge(close.span);
            Ok(Expr { kind: ExprKind::MethodCall { target: Box::new(target), method: name, args }, span })
        } else {
            let span = target.span.merge(member.span);
            Ok(Expr { kind: ExprKind::FieldAccess { target: Box::new(target), field: name }, span })
        }
    }

    /// `[index]` after `target`; the bracket is at the cursor.
    fn parse_index(&mut self, target: Expr) -> (r: Result<Expr, ParseError>)
        requires
            old(self).wf(),
            kind_at(old(self).toks(), old(self).pos()) == TokenKindView::LBracket,
        ensures
            final(self).wf(),
            final(self).toks() == old(self).toks(),
            final(self).pos() >= old(self).pos(),
            r is Ok ==> final(self).pos() > old(self).pos(),
            match r {
                Ok(x) => p_index(old(self).toks(), expr_view(target), old(self).pos()) == Ok::<(ExprView, int), ParseErrorView>((expr_view(x), final(self).pos())),
                Err(e) => p_index(old(self).toks(), expr_view(target), old(self).pos()) == Err::<(ExprView, int), ParseErrorView>(e@),
            },
        decreases old(self).toks().len() - old(self).pos(), 53int,
    {
        proof {
            lemma_p_index(self.toks(), expr_view(target), self.pos());
            self.lemma_wf();
        }
        self.advance();
        let index = match self.parse_expression() {
            Ok(v) => v,
            Err(e) => {
                return Err(e);
            },
        };
        let close = match self.consume(TokenKind::RBracket, "]") {
            Ok(v) => v,
            Err(e) => {
                return Err(e);
            },
        };
        let span = target.span.merge(close.span);
        Ok(Expr { kind: ExprKind::Index { target: Box::new(target), index: Box::new(index) }, span })
    }

    /// A name at the cursor: a call, a struct literal, or the name alone.
    fn parse_ident_primary(&mut self) -> (r: Result<Expr, ParseError>)
        requires
            old(self).wf(),
            is_ident(kind_at(old(self).toks(), old(self).pos())),
        ensures
            final(self).wf(),
            final(self).toks() == old(self).toks(),
            final(self).pos() >= old(self).pos(),
            r is Ok ==> final(self).pos() > old(self).pos(),
            match r {
                Ok(x) => p_ident_primary(old(self).toks(), old(self).pos()) == Ok::<(ExprView, int), ParseErrorView>((expr_view(x), final(self).pos())),
                Err(e) => p_ident_primary(old(self).toks(), old(self).pos()) == Err::<(ExprView, int), ParseErrorView>(e@),
            },
        decreases old(self).toks().len() - old(self).pos(), 53int,
    {
        proof {
            lemma_p_ident_primary(self.toks(), self.pos());
            self.lemma_wf();
        }
        let tok = self.advance();
        let id = match tok.kind {
            TokenKind::Identifier(id) => id,
            _ => {
                return Err(ParseError::InvalidExpression(tok.span));
            },
        };
        if self.check(&TokenKind::LParen) {
            self.advance();
            if self.fields_ahead() {
                let fields = match self.parse_init_fields() {
                Ok(v) => v,
            Err(e) => {
                return Err(e);
            },
        };
                let close = match self.consume(TokenKind::RParen, ")") {
                Ok(v) => v,
            Err(e) => {
                return Err(e);
            },
        };
                Ok(Expr { kind: ExprKind::StructInit { name: id, fields }, span: tok.span.merge(close.span) })
            } else {
                let (args, close) = match self.parse_list(TokenKind::RParen, ")") {
                Ok(v) => v,
            Err(e) => {
                return Err(e);
            },
        };
                Ok(Expr { kind: ExprKind::Call { callee: id, args }, span: tok.span.merge(close.span) })
            }
        } else {
            Ok(Expr { kind: ExprKind::Identifier(id), span: tok.span })
        }
    }

    /// A comma-separated list of expressions closed by `close`, maybe empty:
    /// the expressions and the closing token.
    fn parse_list(&mut self, close: TokenKind, desc: &str) -> (r: Result<(Vec<Expr>, Token), ParseError>)
        requires
            old(self).wf(),
            close@ != TokenKindView::Eof,
        ensures
            final(self).wf(),
            final(self).toks() == old(self).toks(),
            final(self).pos() >= old(self).pos(),
            r is Ok ==> final(self).pos() > old(self).pos(),
            match r {
                Ok(x) => p_list(old(self).toks(), old(self).pos(), close@, desc@) == Ok::<((Seq<ExprView>, TokenView), int), ParseErrorView>(((exprs_view(x.0@), x.1@), final(self).pos())),
                Err(e) => p_list(old(self).toks(), old(self).pos(), close@, desc@) == Err::<((Seq<ExprView>, TokenView), int), ParseErrorView>(e@),
            },
        decreases old(self).toks().len() - old(self).pos(), 62int,
    {
        let ghost t = self.toks();
        let ghost p0 = self.pos();
        proof {
            lemma_p_list(t, p0, close@, desc@);
            self.lemma_wf();
            lemma_empty_views();
        }
        let mut items: Vec<Expr> = Vec::new();
        if self.check(&close) {
            let c = match self.consume(close, desc) {
            Ok(v) => v,
            Err(e) => {
                return Err(e);
            },
        };
            return Ok((items, c));
        }
        loop
            invariant_except_break
                p_elements(t, p0, Seq::empty()) == p_elements(t, self.pos(), exprs_view(items@)),
            invariant
                self.wf(),
                self.toks() == t,
                p0 <= self.pos() <= t.len(),
                items@.len() > 0 ==> p0 < self.pos(),
                kind_at(t, p0) != close@,
                t == old(self).toks(),
                p0 == old(self).pos(),
                t[t.len() - 1].kind == TokenKindView::Eof,
            ensures
                self.wf(),
                self.toks() == t,
                p0 < self.pos() <= t.len(),
                p_elements(t, p0, Seq::empty()) == Ok::<(Seq<ExprView>, int), ParseErrorView>((exprs_view(items@), self.pos())),
            decreases t.len() - self.pos(),
        {
            proof {
                lemma_p_elements(t, self.pos(), exprs_view(items@));
                lemma_p_list(t, p0, close@, desc@);
            }
            let a = match self.parse_expression() {
            Ok(v) => v,
            Err(e) => {
                return Err(e);
            },
        };
            let ghost before = items@;
            proof {
                lemma_exprs_view_push(before, a);
            }
            items.push(a);
            if self.check(&TokenKind::Comma) {
                self.advance();
            } else {
                break;
            }
        }
        let c = match self.consume(close, desc) {
            Ok(v) => v,
            Err(e) => {
                return Err(e);
            },
        };
        Ok((items, c))
    }

    /// The `name: expr, ...` of a struct literal.
    fn parse_init_fields(&mut self) -> (r: Result<Vec<(String, Expr)>, ParseError>)
        requires
            old(self).wf(),
        ensures
            final(self).wf(),
            final(self).toks() == old(self).toks(),
            final(self).pos() >= old(self).pos(),
            r is Ok ==> final(self).pos() > old(self).pos(),
            match r {
                Ok(x) => p_init_fields(old(self).toks(), old(self).pos(), Seq::empty()) == Ok::<(Seq<(Seq<char>, ExprView)>, int), ParseErrorView>((field_inits_view(x@), final(self).pos())),
                Err(e) => p_init_fields(old(self).toks(), old(self).pos(), Seq::empty()) == Err::<(Seq<(Seq<char>, ExprView)>, int), ParseErrorView>(e@),
            },
        decreases old(self).toks().len() - old(self).pos(), 61int,
    {
        let ghost t = self.toks();
        let ghost p0 = self.pos();
        proof {
            self.lemma_wf();
            lemma_empty_views();
        }
        let mut fields: Vec<(String, Expr)> = Vec::new();
        loop
            invariant_except_break
                p_init_fields(t, p0, Seq::empty()) == p_init_fields(t, self.pos(), field_inits_view(fields@)),
            invariant
                self.wf(),
                self.toks() == t,
                p0 <= self.pos() <= t.len(),
                fields@.len() > 0 ==> p0 < self.pos(),
                t == old(self).toks(),
                p0 == old(self).pos(),
                t[t.len() - 1].kind == TokenKindView::Eof,
            ensures
                self.wf(),
                self.toks() == t,
                p0 < self.pos() <= t.len(),
                p_init_fields(t, p0, Seq::empty()) == Ok::<(Seq<(Seq<char>, ExprView)>, int), ParseErrorView>((field_inits_view(fields@), self.pos())),
            decreases t.len() - self.pos(),
        {
            proof {
                lemma_p_init_fields(t, self.pos(), field_inits_view(fields@));
            }
            let name_tok = self.current();
            let f_name = match name_tok.kind {
                TokenKind::Identifier(f) => f,
                other => {
                    return Err(ParseError::UnexpectedToken {
                        expected: String::from_str("क्षेत्र-नाम (Field name)"),
                        found: other,
                        span: name_tok.span,
                    });
                },
            };
            self.advance();
            match self.consume(TokenKind::Colon, ":") {
                Ok(_) => {},
                Err(e) => {
                    return Err(e);
                },
            }
            let f_val = match self.parse_expression() {
            Ok(v) => v,
            Err(e) => {
                return Err(e);
            },
        };
            let ghost before = fields@;
            proof {
                lemma_field_inits_view_push(before, (f_name, f_val));
            }
            fields.push((f_name, f_val));
            if self.check(&TokenKind::Comma) {
                self.advance();
            } else {
                break;
            }
        }
        Ok(fields)
    }

    #[verifier::rlimit(40)]
    fn parse_base_primary(&mut self) -> (r: Result<Expr, ParseError>)
        requires
            old(self).wf(),
        ensures
            final(self).wf(),
            final(self).toks() == old(self).toks(),
            final(self).pos() >= old(self).pos(),
            r is Ok ==> final(self).pos() > old(self).pos(),
            match r {
                Ok(x) => p_base(old(self).toks(), old(self).pos()) == Ok::<(ExprView, int), ParseErrorView>((expr_view(x), final(self).pos())),
                Err(e) => p_base(old(self).toks(), old(self).pos()) == Err::<(ExprView, int), ParseErrorView>(e@),
            },
        decreases old(self).toks().len() - old(self).pos(), 54int,
    {
        proof {
            lemma_p_base(self.toks(), self.pos());
        }
        proof {
            self.lemma_wf();
        }
        let tok = self.current();
        match tok.kind {
            TokenKind::DevanagariInteger(val, raw) => {
                self.advance();
                Ok(Expr { kind: ExprKind::DevanagariInteger(val, raw), span: tok.span })
            },
            TokenKind::DevanagariFloat(raw) => {
                self.advance();
                Ok(Expr { kind: ExprKind::DevanagariFloat(raw), span: tok.span })
            },
            TokenKind::StringLiteral(text) => {
                self.advance();
                Ok(Expr { kind: ExprKind::StringLiteral(text), span: tok.span })
            },
            TokenKind::Satyam => {
                self.advance();
                Ok(Expr { kind: ExprKind::BoolLiteral(true), span: tok.span })
            },
            TokenKind::Mithya => {
                self.advance();
                Ok(Expr { kind: ExprKind::BoolLiteral(false), span: tok.span })
            },
            TokenKind::Identifier(_) => self.parse_ident_primary(),
            TokenKind::LParen => {
                self.advance();
                let inner = match self.parse_expression() {
            Ok(v) => v,
            Err(e) => {
                return Err(e);
            },
        };
                let close = match self.consume(TokenKind::RParen, ")") {
            Ok(v) => v,
            Err(e) => {
                return Err(e);
            },
        };
                Ok(Expr { kind: inner.kind, span: tok.span.merge(close.span) })
            },
            TokenKind::LBracket => {
                self.advance();
                let (elems, close) = match self.parse_list(TokenKind::RBracket, "]") {
            Ok(v) => v,
            Err(e) => {
                return Err(e);
            },
        };
                Ok(Expr { kind: ExprKind::ArrayLiteral(elems), span: tok.span.merge(close.span) })
            },
            _ => Err(ParseError::InvalidExpression(tok.span)),
        }
    }
}

} // verus!
