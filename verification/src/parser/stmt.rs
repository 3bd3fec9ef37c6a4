//! Types and statements.
use vstd::prelude::*;
use crate::token::{TokenKind, TokenKindView};
use crate::ast::{ann_view, expr_view, stmt_view, stmts_view, lemma_empty_views, lemma_stmts_view_push, Statement, TypeAnnotation, Expr, ExprKind, StmtView, AnnView};
use crate::grammar::{ParseError, ParseErrorView, kind_at, p_type, p_block, p_stmt, p_var_decl, p_if, p_while, p_return, p_expr_stmt, p_ident_stmt, lemma_p_type, lemma_p_block, lemma_p_stmt, lemma_p_var_decl, lemma_p_if, lemma_p_while, lemma_p_return, lemma_p_expr_stmt, lemma_p_ident_stmt};
use crate::parser::Parser;
use crate::text::str_is;

verus! {

impl Parser {
    /// A written type at the cursor.
    pub(crate) fn parse_type_annotation(&mut self) -> (r: Result<TypeAnnotation, ParseError>)
        requires
            old(self).wf(),
        ensures
            final(self).wf(),
            final(self).toks() == old(self).toks(),
            final(self).pos() >= old(self).pos(),
            r is Ok ==> final(self).pos() > old(self).pos(),
            match r {
                Ok(a) => p_type(old(self).toks(), old(self).pos()) == Ok::<(AnnView, int), ParseErrorView>((ann_view(a), final(self).pos())),
                Err(e) => p_type(old(self).toks(), old(self).pos()) == Err::<(AnnView, int), ParseErrorView>(e@),
            },
        decreases old(self).toks().len() - old(self).pos(), 10int,
    {
        proof {
            lemma_p_type(self.toks(), self.pos());
            self.lemma_wf();
        }
        let cur = self.current();
        match cur.kind {
            TokenKind::Identifier(name) => {
                self.advance();
                if str_is(name.as_str(), "सूची") && self.check(&TokenKind::LBracket) {
                    self.advance();
                    let inner = match self.parse_type_annotation() {
                        Ok(v) => v,
                        Err(e) => {
                            return Err(e);
                        },
                    };
                    match self.consume(TokenKind::RBracket, "]") {
                        Ok(_) => {},
                        Err(e) => {
                            return Err(e);
                        },
                    }
                    Ok(TypeAnnotation::List(Box::new(inner)))
                } else {
                    Ok(TypeAnnotation::Simple(name))
                }
            },
            TokenKind::Rna => {
                self.advance();
                let inner = match self.parse_type_annotation() {
                    Ok(v) => v,
                    Err(e) => {
                        return Err(e);
                    },
                };
                Ok(TypeAnnotation::Reference(Box::new(inner)))
            },
            TokenKind::CalaRna => {
                self.advance();
                let inner = match self.parse_type_annotation() {
                    Ok(v) => v,
                    Err(e) => {
                        return Err(e);
                    },
                };
                Ok(TypeAnnotation::MutReference(Box::new(inner)))
            },
            other => Err(ParseError::UnexpectedToken {
                expected: String::from_str("प्रकारः (Type name)"),
                found: other,
                span: cur.span,
            }),
        }
    }

    /// Statements up to `इति` or the end (and `अन्यथा` when `at_else`).
    pub(crate) fn parse_block(&mut self, at_else: bool) -> (r: Result<Vec<Statement>, ParseError>)
        requires
            old(self).wf(),
        ensures
            final(self).wf(),
            final(self).toks() == old(self).toks(),
            final(self).pos() >= old(self).pos(),
            match r {
                Ok(v) => p_block(old(self).toks(), old(self).pos(), Seq::empty(), at_else) == Ok::<(Seq<StmtView>, int), ParseErrorView>((stmts_view(v@), final(self).pos())),
                Err(e) => p_block(old(self).toks(), old(self).pos(), Seq::empty(), at_else) == Err::<(Seq<StmtView>, int), ParseErrorView>(e@),
            },
        decreases old(self).toks().len() - old(self).pos(), 75int,
    {
        let ghost t = self.toks();
        let ghost p0 = self.pos();
        proof {
            self.lemma_wf();
            lemma_empty_views();
        }
        let mut stmts: Vec<Statement> = Vec::new();
        loop
            invariant
                self.wf(),
                self.toks() == t,
                p0 <= self.pos() <= t.len(),
                t == old(self).toks(),
                p0 == old(self).pos(),
                t[t.len() - 1].kind == TokenKindView::Eof,
                p_block(t, p0, Seq::empty(), at_else) == p_block(t, self.pos(), stmts_view(stmts@), at_else),
            ensures
                self.wf(),
                self.toks() == t,
                p0 <= self.pos() <= t.len(),
                p_block(t, p0, Seq::empty(), at_else) == Ok::<(Seq<StmtView>, int), ParseErrorView>((stmts_view(stmts@), self.pos())),
            decreases t.len() - self.pos(),
        {
            proof {
                lemma_p_block(t, self.pos(), stmts_view(stmts@), at_else);
            }
            if self.check(&TokenKind::Iti) || self.check(&TokenKind::Eof) || (at_else && (self.check(&TokenKind::Anyatha)
                || self.check(&TokenKind::AnyathaYadi))) {
                break;
            }
            let st = match self.parse_statement() {
                Ok(v) => v,
                Err(e) => {
                    return Err(e);
                },
            };
            proof {
                lemma_stmts_view_push(stmts@, st);
            }
            stmts.push(st);
        }
        Ok(stmts)
    }

    /// One statement at the cursor.
    pub(crate) fn parse_statement(&mut self) -> (r: Result<Statement, ParseError>)
        requires
            old(self).wf(),
        ensures
            final(self).wf(),
            final(self).toks() == old(self).toks(),
            final(self).pos() >= old(self).pos(),
            r is Ok ==> final(self).pos() > old(self).pos(),
            match r {
                Ok(s) => p_stmt(old(self).toks(), old(self).pos()) == Ok::<(StmtView, int), ParseErrorView>((stmt_view(s), final(self).pos())),
                Err(e) => p_stmt(old(self).toks(), old(self).pos()) == Err::<(StmtView, int), ParseErrorView>(e@),
            },
        decreases old(self).toks().len() - old(self).pos(), 70int,
    {
        proof {
            lemma_p_stmt(self.toks(), self.pos());
        }
        let cur = self.current();
        match cur.kind {
            TokenKind::Mana => self.parse_var_decl(),
            TokenKind::Yadi => self.parse_if(),
            TokenKind::Yavat => self.parse_while(),
            TokenKind::Prati => self.parse_return(),
            TokenKind::Identifier(id) => self.parse_ident_statement(id),
            _ => self.parse_expr_statement(),
        }
    }

    /// `मान [विकार्य] name [: T] = expr।`
    fn parse_var_decl(&mut self) -> (r: Result<Statement, ParseError>)
        requires
            old(self).wf(),
            kind_at(old(self).toks(), old(self).pos()) == TokenKindView::Mana,
        ensures
            final(self).wf(),
            final(self).toks() == old(self).toks(),
            final(self).pos() >= old(self).pos(),
            r is Ok ==> final(self).pos() > old(self).pos(),
            match r {
                Ok(s) => p_var_decl(old(self).toks(), old(self).pos()) == Ok::<(StmtView, int), ParseErrorView>((stmt_view(s), final(self).pos())),
                Err(e) => p_var_decl(old(self).toks(), old(self).pos()) == Err::<(StmtView, int), ParseErrorView>(e@),
            },
        decreases old(self).toks().len() - old(self).pos(), 69int,
    {
        proof {
            lemma_p_var_decl(self.toks(), self.pos());
            self.lemma_wf();
        }
        let tok = self.advance();
        let mut is_mut = false;
        if self.check(&TokenKind::Vikarya) {
            self.advance();
            is_mut = true;
        }
        let cur = self.current();
        let name = match cur.kind {
            TokenKind::Identifier(id) => {
                self.advance();
                id
            },
            other => {
                return Err(ParseError::UnexpectedToken {
                    expected: String::from_str("चर-नाम (Variable name)"),
                    found: other,
                    span: cur.span,
                });
            },
        };
        let type_ann = if self.check(&TokenKind::Colon) {
            self.advance();
            match self.parse_type_annotation() {
                Ok(a) => Some(a),
                Err(e) => {
                    return Err(e);
                },
            }
        } else {
            None
        };
        match self.consume(TokenKind::Equal, "=") {
            Ok(_) => {},
            Err(e) => {
                return Err(e);
            },
        }
        let init = match self.parse_expression() {
            Ok(v) => v,
            Err(e) => {
                return Err(e);
            },
        };
        let danda = match self.consume(TokenKind::Danda, "। (Danda terminator)") {
            Ok(v) => v,
            Err(e) => {
                return Err(e);
            },
        };
        Ok(Statement::VarDecl { name, is_mut, type_ann, init, span: tok.span.merge(danda.span) })
    }

    /// `यदि cond then [अन्यथा else] इति`
    fn parse_if(&mut self) -> (r: Result<Statement, ParseError>)
        requires
            old(self).wf(),
            kind_at(old(self).toks(), old(self).pos()) == TokenKindView::Yadi || kind_at(old(self).toks(), old(self).pos())
                == TokenKindView::AnyathaYadi,
        ensures
            final(self).wf(),
            final(self).toks() == old(self).toks(),
            final(self).pos() >= old(self).pos(),
            r is Ok ==> final(self).pos() > old(self).pos(),
            match r {
                Ok(s) => p_if(old(self).toks(), old(self).pos()) == Ok::<(StmtView, int), ParseErrorView>((stmt_view(s), final(self).pos())),
                Err(e) => p_if(old(self).toks(), old(self).pos()) == Err::<(StmtView, int), ParseErrorView>(e@),
            },
        decreases old(self).toks().len() - old(self).pos(), 69int,
    {
        proof {
            lemma_p_if(self.toks(), self.pos());
            self.lemma_wf();
        }
        let tok = self.advance();
        let condition = match self.parse_expression() {
            Ok(v) => v,
            Err(e) => {
                return Err(e);
            },
        };
        let then_branch = match self.parse_block(true) {
            Ok(v) => v,
            Err(e) => {
                return Err(e);
            },
        };
        if self.check(&TokenKind::AnyathaYadi) {
            let nested = match self.parse_if() {
                Ok(v) => v,
                Err(e) => {
                    return Err(e);
                },
            };
            let end_span = match &nested {
                Statement::If { span, .. } => *span,
                _ => tok.span,
            };
            let mut else_stmts: Vec<Statement> = Vec::new();
            proof {
                lemma_stmts_view_push(else_stmts@, nested);
                lemma_empty_views();
            }
            else_stmts.push(nested);
            return Ok(Statement::If {
                condition,
                then_branch,
                else_branch: Some(else_stmts),
                span: tok.span.merge(end_span),
            });
        }
        let else_branch = if self.check(&TokenKind::Anyatha) {
            self.advance();
            match self.parse_block(false) {
                Ok(v) => Some(v),
                Err(e) => {
                    return Err(e);
                },
            }
        } else {
            None
        };
        let end = match self.consume(TokenKind::Iti, "इति") {
            Ok(v) => v,
            Err(e) => {
                return Err(e);
            },
        };
        Ok(Statement::If { condition, then_branch, else_branch, span: tok.span.merge(end.span) })
    }

    /// `यावत् cond body इति`
    fn parse_while(&mut self) -> (r: Result<Statement, ParseError>)
        requires
            old(self).wf(),
            kind_at(old(self).toks(), old(self).pos()) == TokenKindView::Yavat,
        ensures
            final(self).wf(),
            final(self).toks() == old(self).toks(),
            final(self).pos() >= old(self).pos(),
            r is Ok ==> final(self).pos() > old(self).pos(),
            match r {
                Ok(s) => p_while(old(self).toks(), old(self).pos()) == Ok::<(StmtView, int), ParseErrorView>((stmt_view(s), final(self).pos())),
                Err(e) => p_while(old(self).toks(), old(self).pos()) == Err::<(StmtView, int), ParseErrorView>(e@),
            },
        decreases old(self).toks().len() - old(self).pos(), 69int,
    {
        proof {
            lemma_p_while(self.toks(), self.pos());
            self.lemma_wf();
        }
        let tok = self.advance();
        let condition = match self.parse_expression() {
            Ok(v) => v,
            Err(e) => {
                return Err(e);
            },
        };
        let body = match self.parse_block(false) {
            Ok(v) => v,
            Err(e) => {
                return Err(e);
            },
        };
        let end = match self.consume(TokenKind::Iti, "इति") {
            Ok(v) => v,
            Err(e) => {
                return Err(e);
            },
        };
        Ok(Statement::While { condition, body, span: tok.span.merge(end.span) })
    }

    /// `प्रति [expr]।`
    fn parse_return(&mut self) -> (r: Result<Statement, ParseError>)
        requires
            old(self).wf(),
            kind_at(old(self).toks(), old(self).pos()) == TokenKindView::Prati,
        ensures
            final(self).wf(),
            final(self).toks() == old(self).toks(),
            final(self).pos() >= old(self).pos(),
            r is Ok ==> final(self).pos() > old(self).pos(),
            match r {
                Ok(s) => p_return(old(self).toks(), old(self).pos()) == Ok::<(StmtView, int), ParseErrorView>((stmt_view(s), final(self).pos())),
                Err(e) => p_return(old(self).toks(), old(self).pos()) == Err::<(StmtView, int), ParseErrorView>(e@),
            },
        decreases old(self).toks().len() - old(self).pos(), 69int,
    {
        proof {
            lemma_p_return(self.toks(), self.pos());
            self.lemma_wf();
        }
        let tok = self.advance();
        let value = if !self.check(&TokenKind::Danda) {
            match self.parse_expression() {
                Ok(v) => Some(v),
                Err(e) => {
                    return Err(e);
                },
            }
        } else {
            None
        };
        let danda = match self.consume(TokenKind::Danda, "। (Danda)") {
            Ok(v) => v,
            Err(e) => {
                return Err(e);
            },
        };
        Ok(Statement::Return { value, span: tok.span.merge(danda.span) })
    }

    /// `expr।`, or `target[index] = value।`.
    fn parse_expr_statement(&mut self) -> (r: Result<Statement, ParseError>)
        requires
            old(self).wf(),
        ensures
            final(self).wf(),
            final(self).toks() == old(self).toks(),
            final(self).pos() >= old(self).pos(),
            r is Ok ==> final(self).pos() > old(self).pos(),
            match r {
                Ok(s) => p_expr_stmt(old(self).toks(), old(self).pos()) == Ok::<(StmtView, int), ParseErrorView>((stmt_view(s), final(self).pos())),
                Err(e) => p_expr_stmt(old(self).toks(), old(self).pos()) == Err::<(StmtView, int), ParseErrorView>(e@),
            },
        decreases old(self).toks().len() - old(self).pos(), 65int,
    {
        proof {
            lemma_p_expr_stmt(self.toks(), self.pos());
            self.lemma_wf();
        }
        let tok = self.current();
        let e = match self.parse_expression() {
            Ok(v) => v,
            Err(err) => {
                return Err(err);
            },
        };
        let is_index = match &e.kind {
            ExprKind::Index { .. } => true,
            _ => false,
        };
        if is_index && self.check(&TokenKind::Equal) {
            self.advance();
            let value = match self.parse_expression() {
                Ok(v) => v,
                Err(err) => {
                    return Err(err);
                },
            };
            let danda = match self.consume(TokenKind::Danda, "। (Danda)") {
                Ok(v) => v,
                Err(err) => {
                    return Err(err);
                },
            };
            match e.kind {
                ExprKind::Index { target, index } => Ok(
                    Statement::IndexAssignment { target, index, value, span: tok.span.merge(danda.span) },
                ),
                _ => Err(ParseError::UnexpectedEof),
            }
        } else {
            match self.consume(TokenKind::Danda, "। (Danda)") {
                Ok(_) => {},
                Err(err) => {
                    return Err(err);
                },
            }
            Ok(Statement::Expr(e))
        }
    }

    /// A statement that starts with the name `id`: `id.f = e।`, `id = e।`, or an
    /// expression statement.
    #[verifier::rlimit(60)]
    fn parse_ident_statement(&mut self, id: String) -> (r: Result<Statement, ParseError>)
        requires
            old(self).wf(),
            kind_at(old(self).toks(), old(self).pos()) == TokenKindView::Identifier(id@),
        ensures
            final(self).wf(),
            final(self).toks() == old(self).toks(),
            final(self).pos() >= old(self).pos(),
            r is Ok ==> final(self).pos() > old(self).pos(),
            match r {
                Ok(s) => p_ident_stmt(old(self).toks(), old(self).pos(), id@) == Ok::<(StmtView, int), ParseErrorView>((stmt_view(s), final(self).pos())),
                Err(e) => p_ident_stmt(old(self).toks(), old(self).pos(), id@) == Err::<(StmtView, int), ParseErrorView>(e@),
            },
        decreases old(self).toks().len() - old(self).pos(), 69int,
    {
        proof {
            lemma_p_ident_stmt(self.toks(), self.pos(), id@);
            self.lemma_wf();
        }
        if self.field_assign_ahead() {
            let tok = self.advance();
            self.advance();
            let field_tok = self.advance();
            let field = match field_tok.kind {
                TokenKind::Identifier(f) => f,
                _ => {
                    return Err(ParseError::UnexpectedEof);
                },
            };
            self.advance();
            let value = match self.parse_expression() {
                Ok(v) => v,
                Err(e) => {
                    return Err(e);
                },
            };
            let danda = match self.consume(TokenKind::Danda, "। (Danda)") {
                Ok(v) => v,
                Err(e) => {
                    return Err(e);
                },
            };
            Ok(Statement::FieldAssignment { target: id, field, value, span: tok.span.merge(danda.span) })
        } else if self.assign_ahead() {
            let tok = self.advance();
            self.advance();
            let value = match self.parse_expression() {
                Ok(v) => v,
                Err(e) => {
                    return Err(e);
                },
            };
            let danda = match self.consume(TokenKind::Danda, "। (Danda)") {
                Ok(v) => v,
                Err(e) => {
                    return Err(e);
                },
            };
            Ok(Statement::Assignment { target: id, value, span: tok.span.merge(danda.span) })
        } else {
            self.parse_expr_statement()
        }
    }
}

} // verus!
