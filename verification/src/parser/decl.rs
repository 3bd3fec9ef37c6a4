//! Declarations and whole programs.
use vstd::prelude::*;
use crate::token::{TokenKind, TokenKindView};
use crate::ast::{ann_view, param_view, AnnView, field_view, function_view, item_view, Program, TopLevelItem, StructDecl, FieldDecl, ImplBlock, FunctionDecl, Param, TypeAnnotation, ProgramView, ItemView, StructView, FieldView, ImplView, FunctionView, ParamView};
use crate::grammar::{ParseError, ParseErrorView, kind_at, sva, self_param, p_params, p_function, p_fields, p_struct, p_methods, p_impl, p_items, p_program, lemma_p_params, lemma_p_function, lemma_p_fields, lemma_p_struct, lemma_p_methods, lemma_p_impl, lemma_p_items, lemma_p_program};
use crate::parser::Parser;
use crate::text::str_is;

verus! {

impl Parser {
    /// The parameters `p (, p)*` of a function.
    fn parse_params(&mut self) -> (r: Result<Vec<Param>, ParseError>)
        requires
            old(self).wf(),
        ensures
            final(self).wf(),
            final(self).toks() == old(self).toks(),
            final(self).pos() >= old(self).pos(),
            r is Ok ==> final(self).pos() > old(self).pos(),
            match r {
                Ok(v) => p_params(old(self).toks(), old(self).pos(), Seq::empty()) == Ok::<(Seq<ParamView>, int), ParseErrorView>((v@.map_values(|p: Param| param_view(p)), final(self).pos())),
                Err(e) => p_params(old(self).toks(), old(self).pos(), Seq::empty()) == Err::<(Seq<ParamView>, int), ParseErrorView>(e@),
            },
        decreases old(self).toks().len() - old(self).pos(), 79int,
    {
        let ghost t = self.toks();
        let ghost p0 = self.pos();
        proof {
            self.lemma_wf();
            assert(Seq::<Param>::empty().map_values(|p: Param| param_view(p)) =~= Seq::<ParamView>::empty());
        }
        let mut params: Vec<Param> = Vec::new();
        loop
            invariant_except_break
                p_params(t, p0, Seq::empty()) == p_params(t, self.pos(), params@.map_values(|p: Param| param_view(p))),
            invariant
                self.wf(),
                self.toks() == t,
                p0 <= self.pos() <= t.len(),
                params@.len() > 0 ==> p0 < self.pos(),
                t == old(self).toks(),
                p0 == old(self).pos(),
                t[t.len() - 1].kind == TokenKindView::Eof,
            ensures
                self.wf(),
                self.toks() == t,
                p0 < self.pos() <= t.len(),
                p_params(t, p0, Seq::empty()) == Ok::<(Seq<ParamView>, int), ParseErrorView>((params@.map_values(|p: Param| param_view(p)), self.pos())),
            decreases t.len() - self.pos(),
        {
            let ghost before = params@;
            let ghost pb = self.pos();
            proof {
                lemma_p_params(t, pb, before.map_values(|p: Param| param_view(p)));
                reveal_with_fuel(ann_view, 2);
            }
            let tok = self.current();
            let param = if self.check(&TokenKind::Rna) && self.self_name_after() {
                self.advance();
                self.advance();
                Param {
                    name: String::from_str("स्व"),
                    type_ann: TypeAnnotation::Reference(Box::new(TypeAnnotation::Simple(String::from_str("स्व")))),
                    span: tok.span,
                }
            } else if self.check(&TokenKind::CalaRna) && self.self_name_after() {
                self.advance();
                self.advance();
                Param {
                    name: String::from_str("स्व"),
                    type_ann: TypeAnnotation::MutReference(Box::new(TypeAnnotation::Simple(String::from_str("स्व")))),
                    span: tok.span,
                }
            } else {
                let is_self = match &tok.kind {
                    TokenKind::Identifier(s) => str_is(s.as_str(), "स्व"),
                    _ => false,
                };
                if is_self && !self.colon_after() {
                    self.advance();
                    Param {
                        name: String::from_str("स्व"),
                        type_ann: TypeAnnotation::Simple(String::from_str("स्व")),
                        span: tok.span,
                    }
                } else {
                    let name = match tok.kind {
                        TokenKind::Identifier(id) => id,
                        other => {
                            return Err(ParseError::UnexpectedToken {
                                expected: String::from_str("तर्क-नाम (Parameter name)"),
                                found: other,
                                span: tok.span,
                            });
                        },
                    };
                    self.advance();
                    match self.consume(TokenKind::Colon, ":") {
                        Ok(_) => {},
                        Err(e) => {
                            return Err(e);
                        },
                    }
                    let type_ann = match self.parse_type_annotation() {
                        Ok(v) => v,
                        Err(e) => {
                            return Err(e);
                        },
                    };
                    Param { name, type_ann, span: tok.span }
                }
            };
            proof {
                assert(self_param(t, pb) is Some ==> param_view(param) == ParamView { name: sva(), type_ann: self_param(t, pb).unwrap().0, span: tok@.span });
                assert(before.push(param).map_values(|p: Param| param_view(p)) =~= before.map_values(
                    |p: Param| param_view(p),
                ).push(param_view(param)));
            }
            params.push(param);
            if self.check(&TokenKind::Comma) {
                self.advance();
            } else {
                break;
            }
        }
        Ok(params)
    }

    /// `क्रिया name(params) [-> T] body इति`
    pub(crate) fn parse_function(&mut self) -> (r: Result<FunctionDecl, ParseError>)
        requires
            old(self).wf(),
        ensures
            final(self).wf(),
            final(self).toks() == old(self).toks(),
            final(self).pos() >= old(self).pos(),
            r is Ok ==> final(self).pos() > old(self).pos(),
            match r {
                Ok(f) => p_function(old(self).toks(), old(self).pos()) == Ok::<(FunctionView, int), ParseErrorView>((function_view(f), final(self).pos())),
                Err(e) => p_function(old(self).toks(), old(self).pos()) == Err::<(FunctionView, int), ParseErrorView>(e@),
            },
        decreases old(self).toks().len() - old(self).pos(), 80int,
    {
        proof {
            lemma_p_function(self.toks(), self.pos());
            self.lemma_wf();
            assert(Seq::<Param>::empty().map_values(|p: Param| param_view(p)) =~= Seq::<ParamView>::empty());
        }
        let kriya = match self.consume(TokenKind::Kriya, "क्रिया") {
            Ok(v) => v,
            Err(e) => {
                return Err(e);
            },
        };
        let cur = self.current();
        let name = match cur.kind {
            TokenKind::Identifier(id) => {
                self.advance();
                id
            },
            other => {
                return Err(ParseError::UnexpectedToken {
                    expected: String::from_str("क्रिया-नाम (Function name)"),
                    found: other,
                    span: cur.span,
                });
            },
        };
        match self.consume(TokenKind::LParen, "(") {
            Ok(_) => {},
            Err(e) => {
                return Err(e);
            },
        }
        let params = if !self.check(&TokenKind::RParen) {
            match self.parse_params() {
                Ok(v) => v,
                Err(e) => {
                    return Err(e);
                },
            }
        } else {
            Vec::new()
        };
        match self.consume(TokenKind::RParen, ")") {
            Ok(_) => {},
            Err(e) => {
                return Err(e);
            },
        }
        let return_type = if self.check(&TokenKind::Arrow) {
            self.advance();
            match self.parse_type_annotation() {
                Ok(a) => Some(a),
                Err(e) => {
                    return Err(e);
                },
            }
        } else {
            None
        };
        let body = match self.parse_block(false) {
            Ok(v) => v,
            Err(e) => {
                return Err(e);
            },
        };
        let end = match self.consume(TokenKind::Iti, "इति (End of block)") {
            Ok(v) => v,
            Err(e) => {
                return Err(e);
            },
        };
        Ok(FunctionDecl { name, params, return_type, body, span: kriya.span.merge(end.span) })
    }

    /// The fields `name: T [।]` of a struct, up to `इति` or the end.
    fn parse_fields(&mut self) -> (r: Result<Vec<FieldDecl>, ParseError>)
        requires
            old(self).wf(),
        ensures
            final(self).wf(),
            final(self).toks() == old(self).toks(),
            final(self).pos() >= old(self).pos(),
            match r {
                Ok(v) => p_fields(old(self).toks(), old(self).pos(), Seq::empty()) == Ok::<(Seq<FieldView>, int), ParseErrorView>((v@.map_values(|f: FieldDecl| field_view(f)), final(self).pos())),
                Err(e) => p_fields(old(self).toks(), old(self).pos(), Seq::empty()) == Err::<(Seq<FieldView>, int), ParseErrorView>(e@),
            },
        decreases old(self).toks().len() - old(self).pos(), 89int,
    {
        let ghost t = self.toks();
        let ghost p0 = self.pos();
        proof {
            self.lemma_wf();
            assert(Seq::<FieldDecl>::empty().map_values(|f: FieldDecl| field_view(f)) =~= Seq::<FieldView>::empty());
        }
        let mut fields: Vec<FieldDecl> = Vec::new();
        loop
            invariant
                self.wf(),
                self.toks() == t,
                p0 <= self.pos() <= t.len(),
                t == old(self).toks(),
                p0 == old(self).pos(),
                t[t.len() - 1].kind == TokenKindView::Eof,
                p_fields(t, p0, Seq::empty()) == p_fields(t, self.pos(), fields@.map_values(|f: FieldDecl| field_view(f))),
            ensures
                self.wf(),
                self.toks() == t,
                p0 <= self.pos() <= t.len(),
                p_fields(t, p0, Seq::empty()) == Ok::<(Seq<FieldView>, int), ParseErrorView>((fields@.map_values(|f: FieldDecl| field_view(f)), self.pos())),
            decreases t.len() - self.pos(),
        {
            let ghost before = fields@;
            proof {
                lemma_p_fields(t, self.pos(), before.map_values(|f: FieldDecl| field_view(f)));
            }
            if self.check(&TokenKind::Iti) || self.check(&TokenKind::Eof) {
                break;
            }
            let tok = self.current();
            let name = match tok.kind {
                TokenKind::Identifier(id) => id,
                other => {
                    return Err(ParseError::UnexpectedToken {
                        expected: String::from_str("क्षेत्र-नाम (Field name)"),
                        found: other,
                        span: tok.span,
                    });
                },
            };
            self.advance();
            match self.consume(TokenKind::Colon, ":") {
                Ok(_) => {},
                Err(e) => {
                    return Err(e);
                },
            }
            let type_ann = match self.parse_type_annotation() {
                Ok(v) => v,
                Err(e) => {
                    return Err(e);
                },
            };
            if self.check(&TokenKind::Danda) {
                self.advance();
            }
            let field = FieldDecl { name, type_ann, span: tok.span };
            proof {
                assert(before.push(field).map_values(|f: FieldDecl| field_view(f)) =~= before.map_values(
                    |f: FieldDecl| field_view(f),
                ).push(field_view(field)));
            }
            fields.push(field);
        }
        Ok(fields)
    }

    /// `संरचना name fields इति`
    pub(crate) fn parse_struct(&mut self) -> (r: Result<StructDecl, ParseError>)
        requires
            old(self).wf(),
        ensures
            final(self).wf(),
            final(self).toks() == old(self).toks(),
            final(self).pos() >= old(self).pos(),
            r is Ok ==> final(self).pos() > old(self).pos(),
            match r {
                Ok(s) => p_struct(old(self).toks(), old(self).pos()) == Ok::<(StructView, int), ParseErrorView>((crate::ast::struct_view(s), final(self).pos())),
                Err(e) => p_struct(old(self).toks(), old(self).pos()) == Err::<(StructView, int), ParseErrorView>(e@),
            },
        decreases old(self).toks().len() - old(self).pos(), 90int,
    {
        proof {
            lemma_p_struct(self.toks(), self.pos());
            self.lemma_wf();
        }
        let sam = match self.consume(TokenKind::Samracana, "संरचना") {
            Ok(v) => v,
            Err(e) => {
                return Err(e);
            },
        };
        let cur = self.current();
        let name = match cur.kind {
            TokenKind::Identifier(id) => {
                self.advance();
                id
            },
            other => {
                return Err(ParseError::UnexpectedToken {
                    expected: String::from_str("संरचना-नाम (Struct name)"),
                    found: other,
                    span: cur.span,
                });
            },
        };
        let fields = match self.parse_fields() {
            Ok(v) => v,
            Err(e) => {
                return Err(e);
            },
        };
        let end = match self.consume(TokenKind::Iti, "इति") {
            Ok(v) => v,
            Err(e) => {
                return Err(e);
            },
        };
        Ok(StructDecl { name, fields, span: sam.span.merge(end.span) })
    }

    /// The methods of an impl block, up to `इति` or the end.
    fn parse_methods(&mut self) -> (r: Result<Vec<FunctionDecl>, ParseError>)
        requires
            old(self).wf(),
        ensures
            final(self).wf(),
            final(self).toks() == old(self).toks(),
            final(self).pos() >= old(self).pos(),
            match r {
                Ok(v) => p_methods(old(self).toks(), old(self).pos(), Seq::empty()) == Ok::<(Seq<FunctionView>, int), ParseErrorView>((v@.map_values(|f: FunctionDecl| function_view(f)), final(self).pos())),
                Err(e) => p_methods(old(self).toks(), old(self).pos(), Seq::empty()) == Err::<(Seq<FunctionView>, int), ParseErrorView>(e@),
            },
        decreases old(self).toks().len() - old(self).pos(), 89int,
    {
        let ghost t = self.toks();
        let ghost p0 = self.pos();
        proof {
            self.lemma_wf();
            assert(Seq::<FunctionDecl>::empty().map_values(|f: FunctionDecl| function_view(f)) =~= Seq::<FunctionView>::empty());
        }
        let mut methods: Vec<FunctionDecl> = Vec::new();
        loop
            invariant
                self.wf(),
                self.toks() == t,
                p0 <= self.pos() <= t.len(),
                t == old(self).toks(),
                p0 == old(self).pos(),
                t[t.len() - 1].kind == TokenKindView::Eof,
                p_methods(t, p0, Seq::empty()) == p_methods(t, self.pos(), methods@.map_values(|f: FunctionDecl| function_view(f))),
            ensures
                self.wf(),
                self.toks() == t,
                p0 <= self.pos() <= t.len(),
                p_methods(t, p0, Seq::empty()) == Ok::<(Seq<FunctionView>, int), ParseErrorView>((methods@.map_values(|f: FunctionDecl| function_view(f)), self.pos())),
            decreases t.len() - self.pos(),
        {
            let ghost before = methods@;
            proof {
                lemma_p_methods(t, self.pos(), before.map_values(|f: FunctionDecl| function_view(f)));
            }
            if self.check(&TokenKind::Iti) || self.check(&TokenKind::Eof) {
                break;
            }
            if self.check(&TokenKind::Kriya) {
                let f = match self.parse_function() {
                    Ok(v) => v,
                    Err(e) => {
                        return Err(e);
                    },
                };
                proof {
                    assert(before.push(f).map_values(|f: FunctionDecl| function_view(f)) =~= before.map_values(
                        |f: FunctionDecl| function_view(f),
                    ).push(function_view(f)));
                }
                methods.push(f);
            } else if self.check(&TokenKind::DoubleDanda) {
                self.advance();
            } else {
                let cur = self.current();
                return Err(ParseError::UnexpectedToken {
                    expected: String::from_str("क्रिया (Method declaration)"),
                    found: cur.kind,
                    span: cur.span,
                });
            }
        }
        Ok(methods)
    }

    /// `विधान target methods इति`
    pub(crate) fn parse_impl(&mut self) -> (r: Result<ImplBlock, ParseError>)
        requires
            old(self).wf(),
        ensures
            final(self).wf(),
            final(self).toks() == old(self).toks(),
            final(self).pos() >= old(self).pos(),
            r is Ok ==> final(self).pos() > old(self).pos(),
            match r {
                Ok(b) => p_impl(old(self).toks(), old(self).pos()) == Ok::<(ImplView, int), ParseErrorView>((crate::ast::impl_view(b), final(self).pos())),
                Err(e) => p_impl(old(self).toks(), old(self).pos()) == Err::<(ImplView, int), ParseErrorView>(e@),
            },
        decreases old(self).toks().len() - old(self).pos(), 90int,
    {
        proof {
            lemma_p_impl(self.toks(), self.pos());
            self.lemma_wf();
        }
        let vid = match self.consume(TokenKind::Vidhana, "विधान") {
            Ok(v) => v,
            Err(e) => {
                return Err(e);
            },
        };
        let cur = self.current();
        let target = match cur.kind {
            TokenKind::Identifier(id) => {
                self.advance();
                id
            },
            other => {
                return Err(ParseError::UnexpectedToken {
                    expected: String::from_str("विधान-लक्ष्य-नाम (Target struct name)"),
                    found: other,
                    span: cur.span,
                });
            },
        };
        let methods = match self.parse_methods() {
            Ok(v) => v,
            Err(e) => {
                return Err(e);
            },
        };
        let end = match self.consume(TokenKind::Iti, "इति") {
            Ok(v) => v,
            Err(e) => {
                return Err(e);
            },
        };
        Ok(ImplBlock { target, methods, span: vid.span.merge(end.span) })
    }

    /// The whole program from the cursor to the end of the tokens.
    pub fn parse_program(&mut self) -> (r: Result<Program, ParseError>)
        requires
            old(self).wf(),
        ensures
            final(self).wf(),
            final(self).toks() == old(self).toks(),
            match r {
                Ok(prog) => p_program(old(self).toks(), old(self).pos()) == Ok::<ProgramView, ParseErrorView>(prog@),
                Err(e) => p_program(old(self).toks(), old(self).pos()) == Err::<ProgramView, ParseErrorView>(e@),
            },
    {
        let ghost t = self.toks();
        let ghost p0 = self.pos();
        proof {
            lemma_p_program(t, p0);
            self.lemma_wf();
            assert(Seq::<TopLevelItem>::empty().map_values(|i: TopLevelItem| item_view(i)) =~= Seq::<ItemView>::empty());
        }
        let mut items: Vec<TopLevelItem> = Vec::new();
        loop
            invariant
                self.wf(),
                self.toks() == t,
                p0 <= self.pos() <= t.len(),
                t == old(self).toks(),
                p0 == old(self).pos(),
                t[t.len() - 1].kind == TokenKindView::Eof,
                p_items(t, p0, Seq::empty()) == p_items(t, self.pos(), items@.map_values(|i: TopLevelItem| item_view(i))),
            ensures
                self.wf(),
                self.toks() == t,
                p_items(t, p0, Seq::empty()) == Ok::<Seq<ItemView>, ParseErrorView>(items@.map_values(|i: TopLevelItem| item_view(i))),
            decreases t.len() - self.pos(),
        {
            let ghost before = items@;
            proof {
                lemma_p_items(t, self.pos(), before.map_values(|i: TopLevelItem| item_view(i)));
                lemma_p_program(t, p0);
            }
            if self.check(&TokenKind::Eof) {
                break;
            }
            let item = if self.check(&TokenKind::Kriya) {
                match self.parse_function() {
                    Ok(f) => Some(TopLevelItem::Function(f)),
                    Err(e) => {
                        return Err(e);
                    },
                }
            } else if self.check(&TokenKind::Samracana) {
                match self.parse_struct() {
                    Ok(s) => Some(TopLevelItem::Struct(s)),
                    Err(e) => {
                        return Err(e);
                    },
                }
            } else if self.check(&TokenKind::Vidhana) {
                match self.parse_impl() {
                    Ok(b) => Some(TopLevelItem::Impl(b)),
                    Err(e) => {
                        return Err(e);
                    },
                }
            } else if self.check(&TokenKind::DoubleDanda) {
                self.advance();
                None
            } else {
                match self.parse_statement() {
                    Ok(s) => Some(TopLevelItem::Statement(s)),
                    Err(e) => {
                        return Err(e);
                    },
                }
            };
            match item {
                Some(i) => {
                    proof {
                        assert(before.push(i).map_values(|i: TopLevelItem| item_view(i)) =~= before.map_values(
                            |i: TopLevelItem| item_view(i),
                        ).push(item_view(i)));
                    }
                    items.push(i);
                },
                None => {},
            }
        }
        Ok(Program { items })
    }
}

} // verus!
