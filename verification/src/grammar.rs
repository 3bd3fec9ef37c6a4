//! The grammar of the language, as a model of the parser.
//!
//! The `p_*` functions read the token sequence from a position and give
//! the tree they read with the position after it, or the error. Looking at a
//! position past the end sees the last token (the `Eof`). Every step that
//! loops moves forward; the guards on that never fail.
use vstd::prelude::*;
use crate::span::{Span, merge_spec};
use crate::token::{Token, TokenKind, TokenKindView, TokenView};
use crate::ast::{BinaryOp, UnaryOp, ProgramView, ItemView, StructView, FieldView, ImplView, FunctionView, ParamView, AnnView, StmtView, ExprView, ExprKindView};

verus! {

/// Errors of the parser.
#[derive(Debug, PartialEq)]
pub enum ParseError {
    /// A token other than the one the grammar asks for here.
    UnexpectedToken { expected: String, found: TokenKind, span: Span },
    /// The input ended early.
    UnexpectedEof,
    /// A token that starts no expression.
    InvalidExpression(Span),
}

pub enum ParseErrorView {
    UnexpectedToken { expected: Seq<char>, found: TokenKindView, span: Span },
    UnexpectedEof,
    InvalidExpression(Span),
}

impl View for ParseError {
    type V = ParseErrorView;

    open spec fn view(&self) -> ParseErrorView {
        match self {
            ParseError::UnexpectedToken { expected, found, span } => ParseErrorView::UnexpectedToken {
                expected: expected@,
                found: found@,
                span: *span,
            },
            ParseError::UnexpectedEof => ParseErrorView::UnexpectedEof,
            ParseError::InvalidExpression(s) => ParseErrorView::InvalidExpression(*s),
        }
    }
}

pub type Toks = Seq<TokenView>;

/// The token at `p`; past the end, the last token.
pub open spec fn cur(t: Toks, p: int) -> TokenView {
    if 0 <= p < t.len() {
        t[p]
    } else {
        t[t.len() - 1]
    }
}

pub open spec fn kind_at(t: Toks, p: int) -> TokenKindView {
    cur(t, p).kind
}

/// The position after consuming the token at `p` (it stays at the end).
pub open spec fn next_pos(t: Toks, p: int) -> int {
    if p < t.len() {
        p + 1
    } else {
        p
    }
}

/// The token at index `i` (not past the end) has kind `k`.
pub open spec fn raw_is(t: Toks, i: int, k: TokenKindView) -> bool {
    0 <= i < t.len() && t[i].kind == k
}

pub open spec fn is_ident(k: TokenKindView) -> bool {
    k is Identifier
}

pub open spec fn sva() -> Seq<char> {
    "स्व"@
}

pub open spec fn unexpected(desc: Seq<char>, tok: TokenView) -> ParseErrorView {
    ParseErrorView::UnexpectedToken { expected: desc, found: tok.kind, span: tok.span }
}

/// The error that the guards on forward movement give (never reached).
pub open spec fn stalled() -> ParseErrorView {
    ParseErrorView::UnexpectedEof
}

/// The token at `p` if it has kind `k`, with the position after it.
pub open spec fn expect(t: Toks, p: int, k: TokenKindView, desc: Seq<char>) -> Result<(TokenView, int), ParseErrorView> {
    if kind_at(t, p) == k {
        Ok((cur(t, p), next_pos(t, p)))
    } else {
        Err(unexpected(desc, cur(t, p)))
    }
}

pub open spec fn moved(t: Toks, p: int, q: int) -> bool {
    p < q <= t.len()
}

pub open spec fn binary(l: ExprView, op: BinaryOp, r: ExprView) -> ExprView {
    ExprView {
        kind: ExprKindView::Binary { left: Box::new(l), op, right: Box::new(r) },
        span: merge_spec(l.span, r.span),
    }
}

pub type PR<X> = Result<(X, int), ParseErrorView>;

// --- Expressions -----------------------------------------------------------

pub open spec fn equality_op(k: TokenKindView) -> Option<BinaryOp> {
    match k {
        TokenKindView::EqualEqual => Some(BinaryOp::Equal),
        TokenKindView::NotEqual => Some(BinaryOp::NotEqual),
        _ => None,
    }
}

pub open spec fn comparison_op(k: TokenKindView) -> Option<BinaryOp> {
    match k {
        TokenKindView::Less => Some(BinaryOp::Less),
        TokenKindView::LessEqual => Some(BinaryOp::LessEq),
        TokenKindView::Greater => Some(BinaryOp::Greater),
        TokenKindView::GreaterEqual => Some(BinaryOp::GreaterEq),
        _ => None,
    }
}

pub open spec fn term_op(k: TokenKindView) -> Option<BinaryOp> {
    match k {
        TokenKindView::Plus => Some(BinaryOp::Add),
        TokenKindView::Minus => Some(BinaryOp::Sub),
        _ => None,
    }
}

pub open spec fn factor_op(k: TokenKindView) -> Option<BinaryOp> {
    match k {
        TokenKindView::Star => Some(BinaryOp::Mul),
        TokenKindView::Slash => Some(BinaryOp::Div),
        TokenKindView::Percent => Some(BinaryOp::Mod),
        _ => None,
    }
}

/// An expression (the lowest precedence level: equality).
pub open spec fn p_expression(t: Toks, p: int) -> PR<ExprView>
    decreases t.len() - p, 60int,
{
    match p_comparison(t, p) {
        Err(e) => Err(e),
        Ok((l, p1)) => if moved(t, p, p1) {
            p_equality_rest(t, l, p1)
        } else {
            Err(stalled())
        },
    }
}

/// `left (== | !=) comparison ...`, left-associative.
pub open spec fn p_equality_rest(t: Toks, left: ExprView, p: int) -> PR<ExprView>
    decreases t.len() - p, 60int,
{
    if p < t.len() && equality_op(kind_at(t, p)) is Some {
        match p_comparison(t, p + 1) {
            Err(e) => Err(e),
            Ok((r, p2)) => if moved(t, p, p2) {
                p_equality_rest(t, binary(left, equality_op(kind_at(t, p)).unwrap(), r), p2)
            } else {
                Err(stalled())
            },
        }
    } else {
        Ok((left, p))
    }
}

pub open spec fn p_comparison(t: Toks, p: int) -> PR<ExprView>
    decreases t.len() - p, 59int,
{
    match p_term(t, p) {
        Err(e) => Err(e),
        Ok((l, p1)) => if moved(t, p, p1) {
            p_comparison_rest(t, l, p1)
        } else {
            Err(stalled())
        },
    }
}

pub open spec fn p_comparison_rest(t: Toks, left: ExprView, p: int) -> PR<ExprView>
    decreases t.len() - p, 59int,
{
    if p < t.len() && comparison_op(kind_at(t, p)) is Some {
        match p_term(t, p + 1) {
            Err(e) => Err(e),
            Ok((r, p2)) => if moved(t, p, p2) {
                p_comparison_rest(t, binary(left, comparison_op(kind_at(t, p)).unwrap(), r), p2)
            } else {
                Err(stalled())
            },
        }
    } else {
        Ok((left, p))
    }
}

pub open spec fn p_term(t: Toks, p: int) -> PR<ExprView>
    decreases t.len() - p, 58int,
{
    match p_factor(t, p) {
        Err(e) => Err(e),
        Ok((l, p1)) => if moved(t, p, p1) {
            p_term_rest(t, l, p1)
        } else {
            Err(stalled())
        },
    }
}

pub open spec fn p_term_rest(t: Toks, left: ExprView, p: int) -> PR<ExprView>
    decreases t.len() - p, 58int,
{
    if p < t.len() && term_op(kind_at(t, p)) is Some {
        match p_factor(t, p + 1) {
            Err(e) => Err(e),
            Ok((r, p2)) => if moved(t, p, p2) {
                p_term_rest(t, binary(left, term_op(kind_at(t, p)).unwrap(), r), p2)
            } else {
                Err(stalled())
            },
        }
    } else {
        Ok((left, p))
    }
}

pub open spec fn p_factor(t: Toks, p: int) -> PR<ExprView>
    decreases t.len() - p, 57int,
{
    match p_unary(t, p) {
        Err(e) => Err(e),
        Ok((l, p1)) => if moved(t, p, p1) {
            p_factor_rest(t, l, p1)
        } else {
            Err(stalled())
        },
    }
}

pub open spec fn p_factor_rest(t: Toks, left: ExprView, p: int) -> PR<ExprView>
    decreases t.len() - p, 57int,
{
    if p < t.len() && factor_op(kind_at(t, p)) is Some {
        match p_unary(t, p + 1) {
            Err(e) => Err(e),
            Ok((r, p2)) => if moved(t, p, p2) {
                p_factor_rest(t, binary(left, factor_op(kind_at(t, p)).unwrap(), r), p2)
            } else {
                Err(stalled())
            },
        }
    } else {
        Ok((left, p))
    }
}

/// `- unary`, `ऋण unary`, `चलऋण unary`, or a primary.
pub open spec fn p_unary(t: Toks, p: int) -> PR<ExprView>
    decreases t.len() - p, 56int,
{
    let tok = cur(t, p);
    if p < t.len() && tok.kind == TokenKindView::Minus {
        match p_unary(t, p + 1) {
            Err(e) => Err(e),
            Ok((e, p2)) => Ok((
                ExprView {
                    kind: ExprKindView::Unary { op: UnaryOp::Neg, expr: Box::new(e) },
                    span: merge_spec(tok.span, e.span),
                },
                p2,
            )),
        }
    } else if p < t.len() && (tok.kind == TokenKindView::Rna || tok.kind == TokenKindView::CalaRna) {
        match p_unary(t, p + 1) {
            Err(e) => Err(e),
            Ok((e, p2)) => Ok((
                ExprView {
                    kind: ExprKindView::Borrow {
                        is_mut: tok.kind == TokenKindView::CalaRna,
                        expr: Box::new(e),
                    },
                    span: merge_spec(tok.span, e.span),
                },
                p2,
            )),
        }
    } else {
        p_primary(t, p)
    }
}

/// A base primary followed by any number of `.member`, `.method(args)` and
/// `[index]`.
pub open spec fn p_primary(t: Toks, p: int) -> PR<ExprView>
    decreases t.len() - p, 55int,
{
    match p_base(t, p) {
        Err(e) => Err(e),
        Ok((b, p1)) => if moved(t, p, p1) {
            p_primary_rest(t, b, p1)
        } else {
            Err(stalled())
        },
    }
}

pub open spec fn p_primary_rest(t: Toks, e: ExprView, p: int) -> PR<ExprView>
    decreases t.len() - p, 55int,
{
    if p < t.len() && kind_at(t, p) == TokenKindView::Dot {
        match p_member(t, e, p) {
            Err(err) => Err(err),
            Ok((e2, q)) => if moved(t, p, q) {
                p_primary_rest(t, e2, q)
            } else {
                Err(stalled())
            },
        }
    } else if p < t.len() && kind_at(t, p) == TokenKindView::LBracket {
        match p_index(t, e, p) {
            Err(err) => Err(err),
            Ok((e2, q)) => if moved(t, p, q) {
                p_primary_rest(t, e2, q)
            } else {
                Err(stalled())
            },
        }
    } else {
        Ok((e, p))
    }
}

/// `.member` or `.method(args)` after `e`, the dot at `p`.
pub open spec fn p_member(t: Toks, e: ExprView, p: int) -> PR<ExprView>
    decreases t.len() - p, 53int,
{
    let member = cur(t, p + 1);
    let q = next_pos(t, p + 1);
    match member.kind {
        TokenKindView::Identifier(name) => {
            if p < t.len() && q < t.len() && kind_at(t, q) == TokenKindView::LParen {
                match p_list(t, q + 1, TokenKindView::RParen, ")"@) {
                    Err(err) => Err(err),
                    Ok(((args, close), q2)) => Ok((
                        ExprView {
                            kind: ExprKindView::MethodCall { target: Box::new(e), method: name, args },
                            span: merge_spec(e.span, close.span),
                        },
                        q2,
                    )),
                }
            } else {
                Ok((
                    ExprView {
                        kind: ExprKindView::FieldAccess { target: Box::new(e), field: name },
                        span: merge_spec(e.span, member.span),
                    },
                    q,
                ))
            }
        },
        _ => Err(unexpected("क्षेत्र-नाम वा विधि-नाम (Field or method name)"@, member)),
    }
}

/// `[index]` after `e`, the bracket at `p`.
pub open spec fn p_index(t: Toks, e: ExprView, p: int) -> PR<ExprView>
    decreases t.len() - p, 53int,
{
    if p < t.len() {
        match p_expression(t, p + 1) {
            Err(err) => Err(err),
            Ok((index, q)) => match expect(t, q, TokenKindView::RBracket, "]"@) {
                Err(err) => Err(err),
                Ok((close, q2)) => Ok((
                    ExprView {
                        kind: ExprKindView::Index { target: Box::new(e), index: Box::new(index) },
                        span: merge_spec(e.span, close.span),
                    },
                    q2,
                )),
            },
        }
    } else {
        Err(stalled())
    }
}

/// A comma-separated list of expressions (maybe empty) closed by `close`:
/// the expressions and the closing token.
pub open spec fn p_list(t: Toks, p: int, close: TokenKindView, desc: Seq<char>) -> PR<(Seq<ExprView>, TokenView)>
    decreases t.len() - p, 62int,
{
    if kind_at(t, p) == close {
        match expect(t, p, close, desc) {
            Err(e) => Err(e),
            Ok((c, q)) => Ok(((Seq::empty(), c), q)),
        }
    } else {
        match p_elements(t, p, Seq::empty()) {
            Err(e) => Err(e),
            Ok((es, q)) => match expect(t, q, close, desc) {
                Err(e) => Err(e),
                Ok((c, q2)) => Ok(((es, c), q2)),
            },
        }
    }
}

/// `expr (, expr)*`, appended to `acc`.
pub open spec fn p_elements(t: Toks, p: int, acc: Seq<ExprView>) -> PR<Seq<ExprView>>
    decreases t.len() - p, 61int,
{
    match p_expression(t, p) {
        Err(e) => Err(e),
        Ok((a, q)) => if moved(t, p, q) {
            if q < t.len() && kind_at(t, q) == TokenKindView::Comma {
                p_elements(t, q + 1, acc.push(a))
            } else {
                Ok((acc.push(a), q))
            }
        } else {
            Err(stalled())
        },
    }
}

/// `name: expr (, name: expr)*` of a struct literal, appended to `acc`.
pub open spec fn p_init_fields(t: Toks, p: int, acc: Seq<(Seq<char>, ExprView)>) -> PR<Seq<(Seq<char>, ExprView)>>
    decreases t.len() - p, 61int,
{
    match kind_at(t, p) {
        TokenKindView::Identifier(f) => match expect(t, next_pos(t, p), TokenKindView::Colon, ":"@) {
            Err(e) => Err(e),
            Ok((_, q)) => match p_expression(t, q) {
                Err(e) => Err(e),
                Ok((v, q2)) => if moved(t, p, q2) {
                    if q2 < t.len() && kind_at(t, q2) == TokenKindView::Comma {
                        p_init_fields(t, q2 + 1, acc.push((f, v)))
                    } else {
                        Ok((acc.push((f, v)), q2))
                    }
                } else {
                    Err(stalled())
                },
            },
        },
        _ => Err(unexpected("क्षेत्र-नाम (Field name)"@, cur(t, p))),
    }
}

pub open spec fn leaf(kind: ExprKindView, tok: TokenView) -> ExprView {
    ExprView { kind, span: tok.span }
}

/// Literals, names, calls, struct literals, parenthesized expressions and list
/// literals.

/// A name at `p`: a call `name(args)`, a struct literal `name(f: e, ...)`, or
/// the name alone.
pub open spec fn p_ident_primary(t: Toks, p: int) -> PR<ExprView>
    decreases t.len() - p, 53int,
{
    let tok = cur(t, p);
    let q = next_pos(t, p);
    let id = tok.kind->Identifier_0;
            if q < t.len() && kind_at(t, q) == TokenKindView::LParen {
                let r = q + 1;
                if r + 1 < t.len() && is_ident(kind_at(t, r)) && t[r + 1].kind == TokenKindView::Colon {
                    match p_init_fields(t, r, Seq::empty()) {
                        Err(e) => Err(e),
                        Ok((fields, r2)) => match expect(t, r2, TokenKindView::RParen, ")"@) {
                            Err(e) => Err(e),
                            Ok((close, r3)) => Ok((
                                ExprView {
                                    kind: ExprKindView::StructInit { name: id, fields },
                                    span: merge_spec(tok.span, close.span),
                                },
                                r3,
                            )),
                        },
                    }
                } else {
                    match p_list(t, r, TokenKindView::RParen, ")"@) {
                        Err(e) => Err(e),
                        Ok(((args, close), r2)) => Ok((
                            ExprView {
                                kind: ExprKindView::Call { callee: id, args },
                                span: merge_spec(tok.span, close.span),
                            },
                            r2,
                        )),
                    }
                }
            } else {
                Ok((leaf(ExprKindView::Identifier(id), tok), q))
            }
}

pub open spec fn p_base(t: Toks, p: int) -> PR<ExprView>
    decreases t.len() - p, 54int,
{
    let tok = cur(t, p);
    let q = next_pos(t, p);
    match tok.kind {
        TokenKindView::DevanagariInteger(v, raw) => Ok((leaf(ExprKindView::DevanagariInteger(v, raw), tok), q)),
        TokenKindView::DevanagariFloat(raw) => Ok((leaf(ExprKindView::DevanagariFloat(raw), tok), q)),
        TokenKindView::StringLiteral(s) => Ok((leaf(ExprKindView::StringLiteral(s), tok), q)),
        TokenKindView::Satyam => Ok((leaf(ExprKindView::BoolLiteral(true), tok), q)),
        TokenKindView::Mithya => Ok((leaf(ExprKindView::BoolLiteral(false), tok), q)),
        TokenKindView::Identifier(_) => p_ident_primary(t, p),
        TokenKindView::LParen => {
            if p < t.len() {
                match p_expression(t, p + 1) {
                    Err(e) => Err(e),
                    Ok((inner, q2)) => match expect(t, q2, TokenKindView::RParen, ")"@) {
                        Err(e) => Err(e),
                        Ok((close, q3)) => Ok((ExprView { kind: inner.kind, span: merge_spec(tok.span, close.span) }, q3)),
                    },
                }
            } else {
                Err(stalled())
            }
        },
        TokenKindView::LBracket => {
            if p < t.len() {
                match p_list(t, p + 1, TokenKindView::RBracket, "]"@) {
                    Err(e) => Err(e),
                    Ok(((elems, close), q2)) => Ok((
                        ExprView { kind: ExprKindView::ArrayLiteral(elems), span: merge_spec(tok.span, close.span) },
                        q2,
                    )),
                }
            } else {
                Err(stalled())
            }
        },
        _ => Err(ParseErrorView::InvalidExpression(tok.span)),
    }
}

// --- Types -----------------------------------------------------------------

pub open spec fn soochi() -> Seq<char> {
    "सूची"@
}

/// A written type: a name, `सूची[T]`, `ऋण T` or `चलऋण T`.
pub open spec fn p_type(t: Toks, p: int) -> PR<AnnView>
    decreases t.len() - p, 10int,
{
    let tok = cur(t, p);
    let q = next_pos(t, p);
    match tok.kind {
        TokenKindView::Identifier(name) => {
            if name == soochi() && q < t.len() && kind_at(t, q) == TokenKindView::LBracket {
                match p_type(t, q + 1) {
                    Err(e) => Err(e),
                    Ok((inner, q2)) => match expect(t, q2, TokenKindView::RBracket, "]"@) {
                        Err(e) => Err(e),
                        Ok((_, q3)) => Ok((AnnView::List(Box::new(inner)), q3)),
                    },
                }
            } else {
                Ok((AnnView::Simple(name), q))
            }
        },
        TokenKindView::Rna => if p < t.len() {
            match p_type(t, p + 1) {
                Err(e) => Err(e),
                Ok((inner, q2)) => Ok((AnnView::Reference(Box::new(inner)), q2)),
            }
        } else {
            Err(stalled())
        },
        TokenKindView::CalaRna => if p < t.len() {
            match p_type(t, p + 1) {
                Err(e) => Err(e),
                Ok((inner, q2)) => Ok((AnnView::MutReference(Box::new(inner)), q2)),
            }
        } else {
            Err(stalled())
        },
        _ => Err(unexpected("प्रकारः (Type name)"@, tok)),
    }
}

// --- Statements ------------------------------------------------------------

pub open spec fn block_stop(k: TokenKindView, at_else: bool) -> bool {
    k == TokenKindView::Iti || k == TokenKindView::Eof || (at_else && (k == TokenKindView::Anyatha
        || k == TokenKindView::AnyathaYadi))
}

/// The span of an `if` statement (`dflt` for any other statement).
pub open spec fn if_span(s: StmtView, dflt: Span) -> Span {
    match s {
        StmtView::If { span, .. } => span,
        _ => dflt,
    }
}

/// Statements up to `इति` or the end (and `अन्यथा` when `at_else`), appended to `acc`.
pub open spec fn p_block(t: Toks, p: int, acc: Seq<StmtView>, at_else: bool) -> PR<Seq<StmtView>>
    decreases t.len() - p, 75int,
{
    if block_stop(kind_at(t, p), at_else) {
        Ok((acc, p))
    } else {
        match p_stmt(t, p) {
            Err(e) => Err(e),
            Ok((st, q)) => if moved(t, p, q) {
                p_block(t, q, acc.push(st), at_else)
            } else {
                Err(stalled())
            },
        }
    }
}

/// `मान [विकार्य] name [: T] = expr।` starting at the `मान` token at `p`.
pub open spec fn p_var_decl(t: Toks, p: int) -> PR<StmtView>
    decreases t.len() - p, 69int,
{
    let tok = cur(t, p);
    let q = next_pos(t, p);
    let is_mut = kind_at(t, q) == TokenKindView::Vikarya;
    let q1 = if is_mut { next_pos(t, q) } else { q };
    match kind_at(t, q1) {
        TokenKindView::Identifier(name) => {
            let q2 = next_pos(t, q1);
            let ann: PR<Option<AnnView>> = if kind_at(t, q2) == TokenKindView::Colon {
                match p_type(t, next_pos(t, q2)) {
                    Err(e) => Err(e),
                    Ok((a, q3)) => Ok((Some(a), q3)),
                }
            } else {
                Ok((None, q2))
            };
            match ann {
                Err(e) => Err(e),
                Ok((type_ann, q3)) => match expect(t, q3, TokenKindView::Equal, "="@) {
                    Err(e) => Err(e),
                    Ok((_, q4)) => if moved(t, p, q4) {
                        match p_expression(t, q4) {
                            Err(e) => Err(e),
                            Ok((init, q5)) => match expect(t, q5, TokenKindView::Danda, "। (Danda terminator)"@) {
                                Err(e) => Err(e),
                                Ok((danda, q6)) => Ok((
                                    StmtView::VarDecl { name, is_mut, type_ann, init, span: merge_spec(tok.span, danda.span) },
                                    q6,
                                )),
                            },
                        }
                    } else {
                        Err(stalled())
                    },
                },
            }
        },
        _ => Err(unexpected("चर-नाम (Variable name)"@, cur(t, q1))),
    }
}

/// `यदि cond then [अन्यथायदि cond then]* [अन्यथा else] इति` starting at `p`: an
/// `अन्यथायदि` arm is the `else` branch holding the `if` that the rest of the
/// chain makes, and one `इति` closes the whole chain.
pub open spec fn p_if(t: Toks, p: int) -> PR<StmtView>
    decreases t.len() - p, 69int,
{
    let tok = cur(t, p);
    if p < t.len() {
        match p_expression(t, p + 1) {
            Err(e) => Err(e),
            Ok((condition, q)) => if moved(t, p, q) {
                match p_block(t, q, Seq::empty(), true) {
                    Err(e) => Err(e),
                    Ok((then_branch, q2)) => if moved(t, p, q2) {
                        if q2 < t.len() && kind_at(t, q2) == TokenKindView::AnyathaYadi {
                            match p_if(t, q2) {
                                Err(e) => Err(e),
                                Ok((nested, q3)) => Ok((
                                    StmtView::If {
                                        condition,
                                        then_branch,
                                        else_branch: Some(seq![nested]),
                                        span: merge_spec(tok.span, if_span(nested, tok.span)),
                                    },
                                    q3,
                                )),
                            }
                        } else {
                            let els: PR<Option<Seq<StmtView>>> = if q2 < t.len() && kind_at(t, q2) == TokenKindView::Anyatha {
                                match p_block(t, q2 + 1, Seq::empty(), false) {
                                    Err(e) => Err(e),
                                    Ok((b, q3)) => Ok((Some(b), q3)),
                                }
                            } else {
                                Ok((None, q2))
                            };
                            match els {
                                Err(e) => Err(e),
                                Ok((else_branch, q3)) => match expect(t, q3, TokenKindView::Iti, "इति"@) {
                                    Err(e) => Err(e),
                                    Ok((end, q4)) => Ok((
                                        StmtView::If { condition, then_branch, else_branch, span: merge_spec(tok.span, end.span) },
                                        q4,
                                    )),
                                },
                            }
                        }
                    } else {
                        Err(stalled())
                    },
                }
            } else {
                Err(stalled())
            },
        }
    } else {
        Err(stalled())
    }
}

/// `यावत् cond body इति` starting at `p`.
pub open spec fn p_while(t: Toks, p: int) -> PR<StmtView>
    decreases t.len() - p, 69int,
{
    let tok = cur(t, p);
    if p < t.len() {
        match p_expression(t, p + 1) {
            Err(e) => Err(e),
            Ok((condition, q)) => if moved(t, p, q) {
                match p_block(t, q, Seq::empty(), false) {
                    Err(e) => Err(e),
                    Ok((body, q2)) => match expect(t, q2, TokenKindView::Iti, "इति"@) {
                        Err(e) => Err(e),
                        Ok((end, q3)) => Ok((StmtView::While { condition, body, span: merge_spec(tok.span, end.span) }, q3)),
                    },
                }
            } else {
                Err(stalled())
            },
        }
    } else {
        Err(stalled())
    }
}

/// `प्रति [expr]।` starting at `p`.
pub open spec fn p_return(t: Toks, p: int) -> PR<StmtView>
    decreases t.len() - p, 69int,
{
    let tok = cur(t, p);
    if p < t.len() {
        let value: PR<Option<ExprView>> = if kind_at(t, p + 1) != TokenKindView::Danda {
            match p_expression(t, p + 1) {
                Err(e) => Err(e),
                Ok((v, q)) => Ok((Some(v), q)),
            }
        } else {
            Ok((None, p + 1))
        };
        match value {
            Err(e) => Err(e),
            Ok((value, q)) => match expect(t, q, TokenKindView::Danda, "। (Danda)"@) {
                Err(e) => Err(e),
                Ok((danda, q2)) => Ok((StmtView::Return { value, span: merge_spec(tok.span, danda.span) }, q2)),
            },
        }
    } else {
        Err(stalled())
    }
}

/// An expression statement `expr।`, or `target[index] = value।`.
pub open spec fn p_expr_stmt(t: Toks, p: int) -> PR<StmtView>
    decreases t.len() - p, 65int,
{
    let tok = cur(t, p);
    match p_expression(t, p) {
        Err(e) => Err(e),
        Ok((e, q)) => match e.kind {
            ExprKindView::Index { target, index } if q < t.len() && kind_at(t, q) == TokenKindView::Equal => {
                match p_expression(t, q + 1) {
                    Err(err) => Err(err),
                    Ok((value, q2)) => match expect(t, q2, TokenKindView::Danda, "। (Danda)"@) {
                        Err(err) => Err(err),
                        Ok((danda, q3)) => Ok((
                            StmtView::IndexAssignment { target, index, value, span: merge_spec(tok.span, danda.span) },
                            q3,
                        )),
                    },
                }
            },
            _ => match expect(t, q, TokenKindView::Danda, "। (Danda)"@) {
                Err(err) => Err(err),
                Ok((_, q2)) => Ok((StmtView::Expr(e), q2)),
            },
        },
    }
}

/// A statement starting with an identifier: `x.f = e।`, `x = e।`, or an
/// expression statement.
pub open spec fn p_ident_stmt(t: Toks, p: int, id: Seq<char>) -> PR<StmtView>
    decreases t.len() - p, 69int,
{
    let tok = cur(t, p);
    if p + 3 < t.len() && raw_is(t, p + 1, TokenKindView::Dot) && is_ident(t[p + 2].kind) && raw_is(t, p + 3, TokenKindView::Equal) {
        match p_expression(t, p + 4) {
            Err(e) => Err(e),
            Ok((value, q)) => match expect(t, q, TokenKindView::Danda, "। (Danda)"@) {
                Err(e) => Err(e),
                Ok((danda, q2)) => Ok((
                    StmtView::FieldAssignment {
                        target: id,
                        field: t[p + 2].kind->Identifier_0,
                        value,
                        span: merge_spec(tok.span, danda.span),
                    },
                    q2,
                )),
            },
        }
    } else if p + 1 < t.len() && raw_is(t, p + 1, TokenKindView::Equal) {
        match p_expression(t, p + 2) {
            Err(e) => Err(e),
            Ok((value, q)) => match expect(t, q, TokenKindView::Danda, "। (Danda)"@) {
                Err(e) => Err(e),
                Ok((danda, q2)) => Ok((StmtView::Assignment { target: id, value, span: merge_spec(tok.span, danda.span) }, q2)),
            },
        }
    } else {
        p_expr_stmt(t, p)
    }
}

/// One statement.
pub open spec fn p_stmt(t: Toks, p: int) -> PR<StmtView>
    decreases t.len() - p, 70int,
{
    match kind_at(t, p) {
        TokenKindView::Mana => p_var_decl(t, p),
        TokenKindView::Yadi => p_if(t, p),
        TokenKindView::Yavat => p_while(t, p),
        TokenKindView::Prati => p_return(t, p),
        TokenKindView::Identifier(id) => p_ident_stmt(t, p, id),
        _ => p_expr_stmt(t, p),
    }
}

// --- Declarations ------------------------------------------------------------

/// A parameter that is `स्व` alone, `ऋण स्व` or `चलऋण स्व`, if the tokens at `p`
/// spell one: its type and the position after it.
pub open spec fn self_param(t: Toks, p: int) -> Option<(AnnView, int)> {
    let sv = AnnView::Simple(sva());
    if kind_at(t, p) == TokenKindView::Rna && p + 1 < t.len() && t[p + 1].kind == TokenKindView::Identifier(sva()) {
        Some((AnnView::Reference(Box::new(sv)), next_pos(t, next_pos(t, p))))
    } else if kind_at(t, p) == TokenKindView::CalaRna && p + 1 < t.len() && t[p + 1].kind == TokenKindView::Identifier(sva()) {
        Some((AnnView::MutReference(Box::new(sv)), next_pos(t, next_pos(t, p))))
    } else if kind_at(t, p) == TokenKindView::Identifier(sva()) && (p + 1 >= t.len() || t[p + 1].kind != TokenKindView::Colon) {
        Some((sv, next_pos(t, p)))
    } else {
        None
    }
}

/// Parameters `p (, p)*`, appended to `acc`.
pub open spec fn p_params(t: Toks, p: int, acc: Seq<ParamView>) -> PR<Seq<ParamView>>
    decreases t.len() - p, 79int,
{
    let tok = cur(t, p);
    let one: PR<ParamView> = match self_param(t, p) {
        Some((ann, q)) => Ok((ParamView { name: sva(), type_ann: ann, span: tok.span }, q)),
        None => match tok.kind {
            TokenKindView::Identifier(name) => match expect(t, next_pos(t, p), TokenKindView::Colon, ":"@) {
                Err(e) => Err(e),
                Ok((_, q)) => match p_type(t, q) {
                    Err(e) => Err(e),
                    Ok((ann, q2)) => Ok((ParamView { name, type_ann: ann, span: tok.span }, q2)),
                },
            },
            _ => Err(unexpected("तर्क-नाम (Parameter name)"@, tok)),
        },
    };
    match one {
        Err(e) => Err(e),
        Ok((param, q)) => if moved(t, p, q) {
            if q < t.len() && kind_at(t, q) == TokenKindView::Comma {
                p_params(t, q + 1, acc.push(param))
            } else {
                Ok((acc.push(param), q))
            }
        } else {
            Err(stalled())
        },
    }
}

/// `क्रिया name(params) [-> T] body इति` starting at `p`.
pub open spec fn p_function(t: Toks, p: int) -> PR<FunctionView>
    decreases t.len() - p, 80int,
{
    match expect(t, p, TokenKindView::Kriya, "क्रिया"@) {
        Err(e) => Err(e),
        Ok((kriya, q)) => match kind_at(t, q) {
            TokenKindView::Identifier(name) => match expect(t, next_pos(t, q), TokenKindView::LParen, "("@) {
                Err(e) => Err(e),
                Ok((_, q2)) => {
                    let params: PR<Seq<ParamView>> = if kind_at(t, q2) != TokenKindView::RParen && moved(t, p, q2) {
                        p_params(t, q2, Seq::empty())
                    } else {
                        Ok((Seq::empty(), q2))
                    };
                    match params {
                        Err(e) => Err(e),
                        Ok((params, q3)) => match expect(t, q3, TokenKindView::RParen, ")"@) {
                            Err(e) => Err(e),
                            Ok((_, q4)) => {
                                let ret: PR<Option<AnnView>> = if kind_at(t, q4) == TokenKindView::Arrow {
                                    match p_type(t, next_pos(t, q4)) {
                                        Err(e) => Err(e),
                                        Ok((a, q5)) => Ok((Some(a), q5)),
                                    }
                                } else {
                                    Ok((None, q4))
                                };
                                match ret {
                                    Err(e) => Err(e),
                                    Ok((return_type, q5)) => if moved(t, p, q5) {
                                        match p_block(t, q5, Seq::empty(), false) {
                                            Err(e) => Err(e),
                                            Ok((body, q6)) => match expect(t, q6, TokenKindView::Iti, "इति (End of block)"@) {
                                                Err(e) => Err(e),
                                                Ok((end, q7)) => Ok((
                                                    FunctionView { name, params, return_type, body, span: merge_spec(kriya.span, end.span) },
                                                    q7,
                                                )),
                                            },
                                        }
                                    } else {
                                        Err(stalled())
                                    },
                                }
                            },
                        },
                    }
                },
            },
            _ => Err(unexpected("क्रिया-नाम (Function name)"@, cur(t, q))),
        },
    }
}

/// Fields `name: T [।]` up to `इति` or the end, appended to `acc`.
pub open spec fn p_fields(t: Toks, p: int, acc: Seq<FieldView>) -> PR<Seq<FieldView>>
    decreases t.len() - p, 89int,
{
    if kind_at(t, p) == TokenKindView::Iti || kind_at(t, p) == TokenKindView::Eof {
        Ok((acc, p))
    } else {
        let tok = cur(t, p);
        match tok.kind {
            TokenKindView::Identifier(name) => match expect(t, next_pos(t, p), TokenKindView::Colon, ":"@) {
                Err(e) => Err(e),
                Ok((_, q)) => match p_type(t, q) {
                    Err(e) => Err(e),
                    Ok((ann, q2)) => {
                        let q3 = if kind_at(t, q2) == TokenKindView::Danda { next_pos(t, q2) } else { q2 };
                        if moved(t, p, q3) {
                            p_fields(t, q3, acc.push(FieldView { name, type_ann: ann, span: tok.span }))
                        } else {
                            Err(stalled())
                        }
                    },
                },
            },
            _ => Err(unexpected("क्षेत्र-नाम (Field name)"@, tok)),
        }
    }
}

/// `संरचना name fields इति` starting at `p`.
pub open spec fn p_struct(t: Toks, p: int) -> PR<StructView>
    decreases t.len() - p, 90int,
{
    match expect(t, p, TokenKindView::Samracana, "संरचना"@) {
        Err(e) => Err(e),
        Ok((sam, q)) => match kind_at(t, q) {
            TokenKindView::Identifier(name) => if moved(t, p, next_pos(t, q)) {
                match p_fields(t, next_pos(t, q), Seq::empty()) {
                    Err(e) => Err(e),
                    Ok((fields, q2)) => match expect(t, q2, TokenKindView::Iti, "इति"@) {
                        Err(e) => Err(e),
                        Ok((end, q3)) => Ok((StructView { name, fields, span: merge_spec(sam.span, end.span) }, q3)),
                    },
                }
            } else {
                Err(stalled())
            },
            _ => Err(unexpected("संरचना-नाम (Struct name)"@, cur(t, q))),
        },
    }
}

/// Methods of an impl block up to `इति` or the end, appended to `acc`.
pub open spec fn p_methods(t: Toks, p: int, acc: Seq<FunctionView>) -> PR<Seq<FunctionView>>
    decreases t.len() - p, 89int,
{
    let k = kind_at(t, p);
    if k == TokenKindView::Iti || k == TokenKindView::Eof {
        Ok((acc, p))
    } else if k == TokenKindView::Kriya {
        match p_function(t, p) {
            Err(e) => Err(e),
            Ok((f, q)) => if moved(t, p, q) {
                p_methods(t, q, acc.push(f))
            } else {
                Err(stalled())
            },
        }
    } else if k == TokenKindView::DoubleDanda && p < t.len() {
        p_methods(t, p + 1, acc)
    } else {
        Err(unexpected("क्रिया (Method declaration)"@, cur(t, p)))
    }
}

/// `विधान target methods इति` starting at `p`.
pub open spec fn p_impl(t: Toks, p: int) -> PR<ImplView>
    decreases t.len() - p, 90int,
{
    match expect(t, p, TokenKindView::Vidhana, "विधान"@) {
        Err(e) => Err(e),
        Ok((vid, q)) => match kind_at(t, q) {
            TokenKindView::Identifier(target) => if moved(t, p, next_pos(t, q)) {
                match p_methods(t, next_pos(t, q), Seq::empty()) {
                    Err(e) => Err(e),
                    Ok((methods, q2)) => match expect(t, q2, TokenKindView::Iti, "इति"@) {
                        Err(e) => Err(e),
                        Ok((end, q3)) => Ok((ImplView { target, methods, span: merge_spec(vid.span, end.span) }, q3)),
                    },
                }
            } else {
                Err(stalled())
            },
            _ => Err(unexpected("विधान-लक्ष्य-नाम (Target struct name)"@, cur(t, q))),
        },
    }
}

/// Top-level items up to `Eof`, appended to `acc`.
pub open spec fn p_items(t: Toks, p: int, acc: Seq<ItemView>) -> Result<Seq<ItemView>, ParseErrorView>
    decreases t.len() - p, 100int,
{
    let k = kind_at(t, p);
    if k == TokenKindView::Eof {
        Ok(acc)
    } else {
        let one: PR<Option<ItemView>> = if k == TokenKindView::Kriya {
            match p_function(t, p) {
                Err(e) => Err(e),
                Ok((f, q)) => Ok((Some(ItemView::Function(f)), q)),
            }
        } else if k == TokenKindView::Samracana {
            match p_struct(t, p) {
                Err(e) => Err(e),
                Ok((s, q)) => Ok((Some(ItemView::Struct(s)), q)),
            }
        } else if k == TokenKindView::Vidhana {
            match p_impl(t, p) {
                Err(e) => Err(e),
                Ok((b, q)) => Ok((Some(ItemView::Impl(b)), q)),
            }
        } else if k == TokenKindView::DoubleDanda {
            Ok((None, next_pos(t, p)))
        } else {
            match p_stmt(t, p) {
                Err(e) => Err(e),
                Ok((s, q)) => Ok((Some(ItemView::Statement(s)), q)),
            }
        };
        match one {
            Err(e) => Err(e),
            Ok((item, q)) => if moved(t, p, q) {
                match item {
                    Some(i) => p_items(t, q, acc.push(i)),
                    None => p_items(t, q, acc),
                }
            } else {
                Err(stalled())
            },
        }
    }
}

/// The program that the tokens spell from `p`.
pub open spec fn p_program(t: Toks, p: int) -> Result<ProgramView, ParseErrorView>
{
    match p_items(t, p, Seq::empty()) {
        Ok(items) => Ok(ProgramView { items }),
        Err(e) => Err(e),
    }
}


// --- One step of each rule ----------------------------------------------------

/// One step of `p_expression`.
pub proof fn lemma_p_expression(t: Toks, p: int)
    ensures
        p_expression(t, p) == ({
            match p_comparison(t, p) {
                Err(e) => Err(e),
                Ok((l, p1)) => if moved(t, p, p1) {
                    p_equality_rest(t, l, p1)
                } else {
                    Err(stalled())
                },
            }
        }),
{
}

/// One step of `p_equality_rest`.
pub proof fn lemma_p_equality_rest(t: Toks, left: ExprView, p: int)
    ensures
        p_equality_rest(t, left, p) == ({
            if p < t.len() && equality_op(kind_at(t, p)) is Some {
                match p_comparison(t, p + 1) {
                    Err(e) => Err(e),
                    Ok((r, p2)) => if moved(t, p, p2) {
                        p_equality_rest(t, binary(left, equality_op(kind_at(t, p)).unwrap(), r), p2)
                    } else {
                        Err(stalled())
                    },
                }
            } else {
                Ok((left, p))
            }
        }),
{
}

/// One step of `p_comparison`.
pub proof fn lemma_p_comparison(t: Toks, p: int)
    ensures
        p_comparison(t, p) == ({
            match p_term(t, p) {
                Err(e) => Err(e),
                Ok((l, p1)) => if moved(t, p, p1) {
                    p_comparison_rest(t, l, p1)
                } else {
                    Err(stalled())
                },
            }
        }),
{
}

/// One step of `p_comparison_rest`.
pub proof fn lemma_p_comparison_rest(t: Toks, left: ExprView, p: int)
    ensures
        p_comparison_rest(t, left, p) == ({
            if p < t.len() && comparison_op(kind_at(t, p)) is Some {
                match p_term(t, p + 1) {
                    Err(e) => Err(e),
                    Ok((r, p2)) => if moved(t, p, p2) {
                        p_comparison_rest(t, binary(left, comparison_op(kind_at(t, p)).unwrap(), r), p2)
                    } else {
                        Err(stalled())
                    },
                }
            } else {
                Ok((left, p))
            }
        }),
{
}

/// One step of `p_term`.
pub proof fn lemma_p_term(t: Toks, p: int)
    ensures
        p_term(t, p) == ({
            match p_factor(t, p) {
                Err(e) => Err(e),
                Ok((l, p1)) => if moved(t, p, p1) {
                    p_term_rest(t, l, p1)
                } else {
                    Err(stalled())
                },
            }
        }),
{
}

/// One step of `p_term_rest`.
pub proof fn lemma_p_term_rest(t: Toks, left: ExprView, p: int)
    ensures
        p_term_rest(t, left, p) == ({
            if p < t.len() && term_op(kind_at(t, p)) is Some {
                match p_factor(t, p + 1) {
                    Err(e) => Err(e),
                    Ok((r, p2)) => if moved(t, p, p2) {
                        p_term_rest(t, binary(left, term_op(kind_at(t, p)).unwrap(), r), p2)
                    } else {
                        Err(stalled())
                    },
                }
            } else {
                Ok((left, p))
            }
        }),
{
}

/// One step of `p_factor`.
pub proof fn lemma_p_factor(t: Toks, p: int)
    ensures
        p_factor(t, p) == ({
            match p_unary(t, p) {
                Err(e) => Err(e),
                Ok((l, p1)) => if moved(t, p, p1) {
                    p_factor_rest(t, l, p1)
                } else {
                    Err(stalled())
                },
            }
        }),
{
}

/// One step of `p_factor_rest`.
pub proof fn lemma_p_factor_rest(t: Toks, left: ExprView, p: int)
    ensures
        p_factor_rest(t, left, p) == ({
            if p < t.len() && factor_op(kind_at(t, p)) is Some {
                match p_unary(t, p + 1) {
                    Err(e) => Err(e),
                    Ok((r, p2)) => if moved(t, p, p2) {
                        p_factor_rest(t, binary(left, factor_op(kind_at(t, p)).unwrap(), r), p2)
                    } else {
                        Err(stalled())
                    },
                }
            } else {
                Ok((left, p))
            }
        }),
{
}

/// One step of `p_unary`.
pub proof fn lemma_p_unary(t: Toks, p: int)
    ensures
        p_unary(t, p) == ({
            let tok = cur(t, p);
            if p < t.len() && tok.kind == TokenKindView::Minus {
                match p_unary(t, p + 1) {
                    Err(e) => Err(e),
                    Ok((e, p2)) => Ok((
                        ExprView {
                            kind: ExprKindView::Unary { op: UnaryOp::Neg, expr: Box::new(e) },
                            span: merge_spec(tok.span, e.span),
                        },
                        p2,
                    )),
                }
            } else if p < t.len() && (tok.kind == TokenKindView::Rna || tok.kind == TokenKindView::CalaRna) {
                match p_unary(t, p + 1) {
                    Err(e) => Err(e),
                    Ok((e, p2)) => Ok((
                        ExprView {
                            kind: ExprKindView::Borrow {
                                is_mut: tok.kind == TokenKindView::CalaRna,
                                expr: Box::new(e),
                            },
                            span: merge_spec(tok.span, e.span),
                        },
                        p2,
                    )),
                }
            } else {
                p_primary(t, p)
            }
        }),
{
}

/// One step of `p_primary`.
pub proof fn lemma_p_primary(t: Toks, p: int)
    ensures
        p_primary(t, p) == ({
            match p_base(t, p) {
                Err(e) => Err(e),
                Ok((b, p1)) => if moved(t, p, p1) {
                    p_primary_rest(t, b, p1)
                } else {
                    Err(stalled())
                },
            }
        }),
{
}

/// One step of `p_primary_rest`.
pub proof fn lemma_p_primary_rest(t: Toks, e: ExprView, p: int)
    ensures
        p_primary_rest(t, e, p) == ({
            if p < t.len() && kind_at(t, p) == TokenKindView::Dot {
                match p_member(t, e, p) {
                    Err(err) => Err(err),
                    Ok((e2, q)) => if moved(t, p, q) {
                        p_primary_rest(t, e2, q)
                    } else {
                        Err(stalled())
                    },
                }
            } else if p < t.len() && kind_at(t, p) == TokenKindView::LBracket {
                match p_index(t, e, p) {
                    Err(err) => Err(err),
                    Ok((e2, q)) => if moved(t, p, q) {
                        p_primary_rest(t, e2, q)
                    } else {
                        Err(stalled())
                    },
                }
            } else {
                Ok((e, p))
            }
        }),
{
}

/// One step of `p_member`.
pub proof fn lemma_p_member(t: Toks, e: ExprView, p: int)
    ensures
        p_member(t, e, p) == ({
            let member = cur(t, p + 1);
            let q = next_pos(t, p + 1);
            match member.kind {
                TokenKindView::Identifier(name) => {
                    if p < t.len() && q < t.len() && kind_at(t, q) == TokenKindView::LParen {
                        match p_list(t, q + 1, TokenKindView::RParen, ")"@) {
                            Err(err) => Err(err),
                            Ok(((args, close), q2)) => Ok((
                                ExprView {
                                    kind: ExprKindView::MethodCall { target: Box::new(e), method: name, args },
                                    span: merge_spec(e.span, close.span),
                                },
                                q2,
                            )),
                        }
                    } else {
                        Ok((
                            ExprView {
                                kind: ExprKindView::FieldAccess { target: Box::new(e), field: name },
                                span: merge_spec(e.span, member.span),
                            },
                            q,
                        ))
                    }
                },
                _ => Err(unexpected("क्षेत्र-नाम वा विधि-नाम (Field or method name)"@, member)),
            }
        }),
{
}

/// One step of `p_index`.
pub proof fn lemma_p_index(t: Toks, e: ExprView, p: int)
    ensures
        p_index(t, e, p) == ({
            if p < t.len() {
                match p_expression(t, p + 1) {
                    Err(err) => Err(err),
                    Ok((index, q)) => match expect(t, q, TokenKindView::RBracket, "]"@) {
                        Err(err) => Err(err),
                        Ok((close, q2)) => Ok((
                            ExprView {
                                kind: ExprKindView::Index { target: Box::new(e), index: Box::new(index) },
                                span: merge_spec(e.span, close.span),
                            },
                            q2,
                        )),
                    },
                }
            } else {
                Err(stalled())
            }
        }),
{
}

/// One step of `p_list`.
pub proof fn lemma_p_list(t: Toks, p: int, close: TokenKindView, desc: Seq<char>)
    ensures
        p_list(t, p, close, desc) == ({
            if kind_at(t, p) == close {
                match expect(t, p, close, desc) {
                    Err(e) => Err(e),
                    Ok((c, q)) => Ok(((Seq::empty(), c), q)),
                }
            } else {
                match p_elements(t, p, Seq::empty()) {
                    Err(e) => Err(e),
                    Ok((es, q)) => match expect(t, q, close, desc) {
                        Err(e) => Err(e),
                        Ok((c, q2)) => Ok(((es, c), q2)),
                    },
                }
            }
        }),
{
}

/// One step of `p_elements`.
pub proof fn lemma_p_elements(t: Toks, p: int, acc: Seq<ExprView>)
    ensures
        p_elements(t, p, acc) == ({
            match p_expression(t, p) {
                Err(e) => Err(e),
                Ok((a, q)) => if moved(t, p, q) {
                    if q < t.len() && kind_at(t, q) == TokenKindView::Comma {
                        p_elements(t, q + 1, acc.push(a))
                    } else {
                        Ok((acc.push(a), q))
                    }
                } else {
                    Err(stalled())
                },
            }
        }),
{
}

/// One step of `p_init_fields`.
pub proof fn lemma_p_init_fields(t: Toks, p: int, acc: Seq<(Seq<char>, ExprView)>)
    ensures
        p_init_fields(t, p, acc) == ({
            match kind_at(t, p) {
                TokenKindView::Identifier(f) => match expect(t, next_pos(t, p), TokenKindView::Colon, ":"@) {
                    Err(e) => Err(e),
                    Ok((_, q)) => match p_expression(t, q) {
                        Err(e) => Err(e),
                        Ok((v, q2)) => if moved(t, p, q2) {
                            if q2 < t.len() && kind_at(t, q2) == TokenKindView::Comma {
                                p_init_fields(t, q2 + 1, acc.push((f, v)))
                            } else {
                                Ok((acc.push((f, v)), q2))
                            }
                        } else {
                            Err(stalled())
                        },
                    },
                },
                _ => Err(unexpected("क्षेत्र-नाम (Field name)"@, cur(t, p))),
            }
        }),
{
}

/// One step of `p_ident_primary`.
pub proof fn lemma_p_ident_primary(t: Toks, p: int)
    ensures
        p_ident_primary(t, p) == ({
            let tok = cur(t, p);
            let q = next_pos(t, p);
            let id = tok.kind->Identifier_0;
                    if q < t.len() && kind_at(t, q) == TokenKindView::LParen {
                        let r = q + 1;
                        if r + 1 < t.len() && is_ident(kind_at(t, r)) && t[r + 1].kind == TokenKindView::Colon {
                            match p_init_fields(t, r, Seq::empty()) {
                                Err(e) => Err(e),
                                Ok((fields, r2)) => match expect(t, r2, TokenKindView::RParen, ")"@) {
                                    Err(e) => Err(e),
                                    Ok((close, r3)) => Ok((
                                        ExprView {
                                            kind: ExprKindView::StructInit { name: id, fields },
                                            span: merge_spec(tok.span, close.span),
                                        },
                                        r3,
                                    )),
                                },
                            }
                        } else {
                            match p_list(t, r, TokenKindView::RParen, ")"@) {
                                Err(e) => Err(e),
                                Ok(((args, close), r2)) => Ok((
                                    ExprView {
                                        kind: ExprKindView::Call { callee: id, args },
                                        span: merge_spec(tok.span, close.span),
                                    },
                                    r2,
                                )),
                            }
                        }
                    } else {
                        Ok((leaf(ExprKindView::Identifier(id), tok), q))
                    }
        }),
{
}

/// One step of `p_base`.
pub proof fn lemma_p_base(t: Toks, p: int)
    ensures
        p_base(t, p) == ({
            let tok = cur(t, p);
            let q = next_pos(t, p);
            match tok.kind {
                TokenKindView::DevanagariInteger(v, raw) => Ok((leaf(ExprKindView::DevanagariInteger(v, raw), tok), q)),
                TokenKindView::DevanagariFloat(raw) => Ok((leaf(ExprKindView::DevanagariFloat(raw), tok), q)),
                TokenKindView::StringLiteral(s) => Ok((leaf(ExprKindView::StringLiteral(s), tok), q)),
                TokenKindView::Satyam => Ok((leaf(ExprKindView::BoolLiteral(true), tok), q)),
                TokenKindView::Mithya => Ok((leaf(ExprKindView::BoolLiteral(false), tok), q)),
                TokenKindView::Identifier(_) => p_ident_primary(t, p),
                TokenKindView::LParen => {
                    if p < t.len() {
                        match p_expression(t, p + 1) {
                            Err(e) => Err(e),
                            Ok((inner, q2)) => match expect(t, q2, TokenKindView::RParen, ")"@) {
                                Err(e) => Err(e),
                                Ok((close, q3)) => Ok((ExprView { kind: inner.kind, span: merge_spec(tok.span, close.span) }, q3)),
                            },
                        }
                    } else {
                        Err(stalled())
                    }
                },
                TokenKindView::LBracket => {
                    if p < t.len() {
                        match p_list(t, p + 1, TokenKindView::RBracket, "]"@) {
                            Err(e) => Err(e),
                            Ok(((elems, close), q2)) => Ok((
                                ExprView { kind: ExprKindView::ArrayLiteral(elems), span: merge_spec(tok.span, close.span) },
                                q2,
                            )),
                        }
                    } else {
                        Err(stalled())
                    }
                },
                _ => Err(ParseErrorView::InvalidExpression(tok.span)),
            }
        }),
{
}

/// One step of `p_type`.
pub proof fn lemma_p_type(t: Toks, p: int)
    ensures
        p_type(t, p) == ({
            let tok = cur(t, p);
            let q = next_pos(t, p);
            match tok.kind {
                TokenKindView::Identifier(name) => {
                    if name == soochi() && q < t.len() && kind_at(t, q) == TokenKindView::LBracket {
                        match p_type(t, q + 1) {
                            Err(e) => Err(e),
                            Ok((inner, q2)) => match expect(t, q2, TokenKindView::RBracket, "]"@) {
                                Err(e) => Err(e),
                                Ok((_, q3)) => Ok((AnnView::List(Box::new(inner)), q3)),
                            },
                        }
                    } else {
                        Ok((AnnView::Simple(name), q))
                    }
                },
                TokenKindView::Rna => if p < t.len() {
                    match p_type(t, p + 1) {
                        Err(e) => Err(e),
                        Ok((inner, q2)) => Ok((AnnView::Reference(Box::new(inner)), q2)),
                    }
                } else {
                    Err(stalled())
                },
                TokenKindView::CalaRna => if p < t.len() {
                    match p_type(t, p + 1) {
                        Err(e) => Err(e),
                        Ok((inner, q2)) => Ok((AnnView::MutReference(Box::new(inner)), q2)),
                    }
                } else {
                    Err(stalled())
                },
                _ => Err(unexpected("प्रकारः (Type name)"@, tok)),
            }
        }),
{
}

/// One step of `p_block`.
pub proof fn lemma_p_block(t: Toks, p: int, acc: Seq<StmtView>, at_else: bool)
    ensures
        p_block(t, p, acc, at_else) == ({
            if block_stop(kind_at(t, p), at_else) {
                Ok((acc, p))
            } else {
                match p_stmt(t, p) {
                    Err(e) => Err(e),
                    Ok((st, q)) => if moved(t, p, q) {
                        p_block(t, q, acc.push(st), at_else)
                    } else {
                        Err(stalled())
                    },
                }
            }
        }),
{
}

/// One step of `p_var_decl`.
pub proof fn lemma_p_var_decl(t: Toks, p: int)
    ensures
        p_var_decl(t, p) == ({
            let tok = cur(t, p);
            let q = next_pos(t, p);
            let is_mut = kind_at(t, q) == TokenKindView::Vikarya;
            let q1 = if is_mut { next_pos(t, q) } else { q };
            match kind_at(t, q1) {
                TokenKindView::Identifier(name) => {
                    let q2 = next_pos(t, q1);
                    let ann: PR<Option<AnnView>> = if kind_at(t, q2) == TokenKindView::Colon {
                        match p_type(t, next_pos(t, q2)) {
                            Err(e) => Err(e),
                            Ok((a, q3)) => Ok((Some(a), q3)),
                        }
                    } else {
                        Ok((None, q2))
                    };
                    match ann {
                        Err(e) => Err(e),
                        Ok((type_ann, q3)) => match expect(t, q3, TokenKindView::Equal, "="@) {
                            Err(e) => Err(e),
                            Ok((_, q4)) => if moved(t, p, q4) {
                                match p_expression(t, q4) {
                                    Err(e) => Err(e),
                                    Ok((init, q5)) => match expect(t, q5, TokenKindView::Danda, "। (Danda terminator)"@) {
                                        Err(e) => Err(e),
                                        Ok((danda, q6)) => Ok((
                                            StmtView::VarDecl { name, is_mut, type_ann, init, span: merge_spec(tok.span, danda.span) },
                                            q6,
                                        )),
                                    },
                                }
                            } else {
                                Err(stalled())
                            },
                        },
                    }
                },
                _ => Err(unexpected("चर-नाम (Variable name)"@, cur(t, q1))),
            }
        }),
{
}

/// One step of `p_if`.
pub proof fn lemma_p_if(t: Toks, p: int)
    ensures
        p_if(t, p) == ({
            let tok = cur(t, p);
            if p < t.len() {
                match p_expression(t, p + 1) {
                    Err(e) => Err(e),
                    Ok((condition, q)) => if moved(t, p, q) {
                        match p_block(t, q, Seq::empty(), true) {
                            Err(e) => Err(e),
                            Ok((then_branch, q2)) => if moved(t, p, q2) {
                                if q2 < t.len() && kind_at(t, q2) == TokenKindView::AnyathaYadi {
                                    match p_if(t, q2) {
                                        Err(e) => Err(e),
                                        Ok((nested, q3)) => Ok((
                                            StmtView::If {
                                                condition,
                                                then_branch,
                                                else_branch: Some(seq![nested]),
                                                span: merge_spec(tok.span, if_span(nested, tok.span)),
                                            },
                                            q3,
                                        )),
                                    }
                                } else {
                                    let els: PR<Option<Seq<StmtView>>> = if q2 < t.len() && kind_at(t, q2) == TokenKindView::Anyatha {
                                        match p_block(t, q2 + 1, Seq::empty(), false) {
                                            Err(e) => Err(e),
                                            Ok((b, q3)) => Ok((Some(b), q3)),
                                        }
                                    } else {
                                        Ok((None, q2))
                                    };
                                    match els {
                                        Err(e) => Err(e),
                                        Ok((else_branch, q3)) => match expect(t, q3, TokenKindView::Iti, "इति"@) {
                                            Err(e) => Err(e),
                                            Ok((end, q4)) => Ok((
                                                StmtView::If { condition, then_branch, else_branch, span: merge_spec(tok.span, end.span) },
                                                q4,
                                            )),
                                        },
                                    }
                                }
                            } else {
                                Err(stalled())
                            },
                        }
                    } else {
                        Err(stalled())
                    },
                }
            } else {
                Err(stalled())
            }
        }),
{
}

/// One step of `p_while`.
pub proof fn lemma_p_while(t: Toks, p: int)
    ensures
        p_while(t, p) == ({
            let tok = cur(t, p);
            if p < t.len() {
                match p_expression(t, p + 1) {
                    Err(e) => Err(e),
                    Ok((condition, q)) => if moved(t, p, q) {
                        match p_block(t, q, Seq::empty(), false) {
                            Err(e) => Err(e),
                            Ok((body, q2)) => match expect(t, q2, TokenKindView::Iti, "इति"@) {
                                Err(e) => Err(e),
                                Ok((end, q3)) => Ok((StmtView::While { condition, body, span: merge_spec(tok.span, end.span) }, q3)),
                            },
                        }
                    } else {
                        Err(stalled())
                    },
                }
            } else {
                Err(stalled())
            }
        }),
{
}

/// One step of `p_return`.
pub proof fn lemma_p_return(t: Toks, p: int)
    ensures
        p_return(t, p) == ({
            let tok = cur(t, p);
            if p < t.len() {
                let value: PR<Option<ExprView>> = if kind_at(t, p + 1) != TokenKindView::Danda {
                    match p_expression(t, p + 1) {
                        Err(e) => Err(e),
                        Ok((v, q)) => Ok((Some(v), q)),
                    }
                } else {
                    Ok((None, p + 1))
                };
                match value {
                    Err(e) => Err(e),
                    Ok((value, q)) => match expect(t, q, TokenKindView::Danda, "। (Danda)"@) {
                        Err(e) => Err(e),
                        Ok((danda, q2)) => Ok((StmtView::Return { value, span: merge_spec(tok.span, danda.span) }, q2)),
                    },
                }
            } else {
                Err(stalled())
            }
        }),
{
}

/// One step of `p_expr_stmt`.
pub proof fn lemma_p_expr_stmt(t: Toks, p: int)
    ensures
        p_expr_stmt(t, p) == ({
            let tok = cur(t, p);
            match p_expression(t, p) {
                Err(e) => Err(e),
                Ok((e, q)) => match e.kind {
                    ExprKindView::Index { target, index } if q < t.len() && kind_at(t, q) == TokenKindView::Equal => {
                        match p_expression(t, q + 1) {
                            Err(err) => Err(err),
                            Ok((value, q2)) => match expect(t, q2, TokenKindView::Danda, "। (Danda)"@) {
                                Err(err) => Err(err),
                                Ok((danda, q3)) => Ok((
                                    StmtView::IndexAssignment { target, index, value, span: merge_spec(tok.span, danda.span) },
                                    q3,
                                )),
                            },
                        }
                    },
                    _ => match expect(t, q, TokenKindView::Danda, "। (Danda)"@) {
                        Err(err) => Err(err),
                        Ok((_, q2)) => Ok((StmtView::Expr(e), q2)),
                    },
                },
            }
        }),
{
}

/// One step of `p_ident_stmt`.
pub proof fn lemma_p_ident_stmt(t: Toks, p: int, id: Seq<char>)
    ensures
        p_ident_stmt(t, p, id) == ({
            let tok = cur(t, p);
            if p + 3 < t.len() && raw_is(t, p + 1, TokenKindView::Dot) && is_ident(t[p + 2].kind) && raw_is(t, p + 3, TokenKindView::Equal) {
                match p_expression(t, p + 4) {
                    Err(e) => Err(e),
                    Ok((value, q)) => match expect(t, q, TokenKindView::Danda, "। (Danda)"@) {
                        Err(e) => Err(e),
                        Ok((danda, q2)) => Ok((
                            StmtView::FieldAssignment {
                                target: id,
                                field: t[p + 2].kind->Identifier_0,
                                value,
                                span: merge_spec(tok.span, danda.span),
                            },
                            q2,
                        )),
                    },
                }
            } else if p + 1 < t.len() && raw_is(t, p + 1, TokenKindView::Equal) {
                match p_expression(t, p + 2) {
                    Err(e) => Err(e),
                    Ok((value, q)) => match expect(t, q, TokenKindView::Danda, "। (Danda)"@) {
                        Err(e) => Err(e),
                        Ok((danda, q2)) => Ok((StmtView::Assignment { target: id, value, span: merge_spec(tok.span, danda.span) }, q2)),
                    },
                }
            } else {
                p_expr_stmt(t, p)
            }
        }),
{
}

/// One step of `p_stmt`.
pub proof fn lemma_p_stmt(t: Toks, p: int)
    ensures
        p_stmt(t, p) == ({
            match kind_at(t, p) {
                TokenKindView::Mana => p_var_decl(t, p),
                TokenKindView::Yadi => p_if(t, p),
                TokenKindView::Yavat => p_while(t, p),
                TokenKindView::Prati => p_return(t, p),
                TokenKindView::Identifier(id) => p_ident_stmt(t, p, id),
                _ => p_expr_stmt(t, p),
            }
        }),
{
}

/// One step of `p_params`.
pub proof fn lemma_p_params(t: Toks, p: int, acc: Seq<ParamView>)
    ensures
        p_params(t, p, acc) == ({
            let tok = cur(t, p);
            let one: PR<ParamView> = match self_param(t, p) {
                Some((ann, q)) => Ok((ParamView { name: sva(), type_ann: ann, span: tok.span }, q)),
                None => match tok.kind {
                    TokenKindView::Identifier(name) => match expect(t, next_pos(t, p), TokenKindView::Colon, ":"@) {
                        Err(e) => Err(e),
                        Ok((_, q)) => match p_type(t, q) {
                            Err(e) => Err(e),
                            Ok((ann, q2)) => Ok((ParamView { name, type_ann: ann, span: tok.span }, q2)),
                        },
                    },
                    _ => Err(unexpected("तर्क-नाम (Parameter name)"@, tok)),
                },
            };
            match one {
                Err(e) => Err(e),
                Ok((param, q)) => if moved(t, p, q) {
                    if q < t.len() && kind_at(t, q) == TokenKindView::Comma {
                        p_params(t, q + 1, acc.push(param))
                    } else {
                        Ok((acc.push(param), q))
                    }
                } else {
                    Err(stalled())
                },
            }
        }),
{
}

/// One step of `p_function`.
pub proof fn lemma_p_function(t: Toks, p: int)
    ensures
        p_function(t, p) == ({
            match expect(t, p, TokenKindView::Kriya, "क्रिया"@) {
                Err(e) => Err(e),
                Ok((kriya, q)) => match kind_at(t, q) {
                    TokenKindView::Identifier(name) => match expect(t, next_pos(t, q), TokenKindView::LParen, "("@) {
                        Err(e) => Err(e),
                        Ok((_, q2)) => {
                            let params: PR<Seq<ParamView>> = if kind_at(t, q2) != TokenKindView::RParen && moved(t, p, q2) {
                                p_params(t, q2, Seq::empty())
                            } else {
                                Ok((Seq::empty(), q2))
                            };
                            match params {
                                Err(e) => Err(e),
                                Ok((params, q3)) => match expect(t, q3, TokenKindView::RParen, ")"@) {
                                    Err(e) => Err(e),
                                    Ok((_, q4)) => {
                                        let ret: PR<Option<AnnView>> = if kind_at(t, q4) == TokenKindView::Arrow {
                                            match p_type(t, next_pos(t, q4)) {
                                                Err(e) => Err(e),
                                                Ok((a, q5)) => Ok((Some(a), q5)),
                                            }
                                        } else {
                                            Ok((None, q4))
                                        };
                                        match ret {
                                            Err(e) => Err(e),
                                            Ok((return_type, q5)) => if moved(t, p, q5) {
                                                match p_block(t, q5, Seq::empty(), false) {
                                                    Err(e) => Err(e),
                                                    Ok((body, q6)) => match expect(t, q6, TokenKindView::Iti, "इति (End of block)"@) {
                                                        Err(e) => Err(e),
                                                        Ok((end, q7)) => Ok((
                                                            FunctionView { name, params, return_type, body, span: merge_spec(kriya.span, end.span) },
                                                            q7,
                                                        )),
                                                    },
                                                }
                                            } else {
                                                Err(stalled())
                                            },
                                        }
                                    },
                                },
                            }
                        },
                    },
                    _ => Err(unexpected("क्रिया-नाम (Function name)"@, cur(t, q))),
                },
            }
        }),
{
}

/// One step of `p_fields`.
pub proof fn lemma_p_fields(t: Toks, p: int, acc: Seq<FieldView>)
    ensures
        p_fields(t, p, acc) == ({
            if kind_at(t, p) == TokenKindView::Iti || kind_at(t, p) == TokenKindView::Eof {
                Ok((acc, p))
            } else {
                let tok = cur(t, p);
                match tok.kind {
                    TokenKindView::Identifier(name) => match expect(t, next_pos(t, p), TokenKindView::Colon, ":"@) {
                        Err(e) => Err(e),
                        Ok((_, q)) => match p_type(t, q) {
                            Err(e) => Err(e),
                            Ok((ann, q2)) => {
                                let q3 = if kind_at(t, q2) == TokenKindView::Danda { next_pos(t, q2) } else { q2 };
                                if moved(t, p, q3) {
                                    p_fields(t, q3, acc.push(FieldView { name, type_ann: ann, span: tok.span }))
                                } else {
                                    Err(stalled())
                                }
                            },
                        },
                    },
                    _ => Err(unexpected("क्षेत्र-नाम (Field name)"@, tok)),
                }
            }
        }),
{
}

/// One step of `p_struct`.
pub proof fn lemma_p_struct(t: Toks, p: int)
    ensures
        p_struct(t, p) == ({
            match expect(t, p, TokenKindView::Samracana, "संरचना"@) {
                Err(e) => Err(e),
                Ok((sam, q)) => match kind_at(t, q) {
                    TokenKindView::Identifier(name) => if moved(t, p, next_pos(t, q)) {
                        match p_fields(t, next_pos(t, q), Seq::empty()) {
                            Err(e) => Err(e),
                            Ok((fields, q2)) => match expect(t, q2, TokenKindView::Iti, "इति"@) {
                                Err(e) => Err(e),
                                Ok((end, q3)) => Ok((StructView { name, fields, span: merge_spec(sam.span, end.span) }, q3)),
                            },
                        }
                    } else {
                        Err(stalled())
                    },
                    _ => Err(unexpected("संरचना-नाम (Struct name)"@, cur(t, q))),
                },
            }
        }),
{
}

/// One step of `p_methods`.
pub proof fn lemma_p_methods(t: Toks, p: int, acc: Seq<FunctionView>)
    ensures
        p_methods(t, p, acc) == ({
            let k = kind_at(t, p);
            if k == TokenKindView::Iti || k == TokenKindView::Eof {
                Ok((acc, p))
            } else if k == TokenKindView::Kriya {
                match p_function(t, p) {
                    Err(e) => Err(e),
                    Ok((f, q)) => if moved(t, p, q) {
                        p_methods(t, q, acc.push(f))
                    } else {
                        Err(stalled())
                    },
                }
            } else if k == TokenKindView::DoubleDanda && p < t.len() {
                p_methods(t, p + 1, acc)
            } else {
                Err(unexpected("क्रिया (Method declaration)"@, cur(t, p)))
            }
        }),
{
}

/// One step of `p_impl`.
pub proof fn lemma_p_impl(t: Toks, p: int)
    ensures
        p_impl(t, p) == ({
            match expect(t, p, TokenKindView::Vidhana, "विधान"@) {
                Err(e) => Err(e),
                Ok((vid, q)) => match kind_at(t, q) {
                    TokenKindView::Identifier(target) => if moved(t, p, next_pos(t, q)) {
                        match p_methods(t, next_pos(t, q), Seq::empty()) {
                            Err(e) => Err(e),
                            Ok((methods, q2)) => match expect(t, q2, TokenKindView::Iti, "इति"@) {
                                Err(e) => Err(e),
                                Ok((end, q3)) => Ok((ImplView { target, methods, span: merge_spec(vid.span, end.span) }, q3)),
                            },
                        }
                    } else {
                        Err(stalled())
                    },
                    _ => Err(unexpected("विधान-लक्ष्य-नाम (Target struct name)"@, cur(t, q))),
                },
            }
        }),
{
}

/// One step of `p_items`.
pub proof fn lemma_p_items(t: Toks, p: int, acc: Seq<ItemView>)
    ensures
        p_items(t, p, acc) == ({
            let k = kind_at(t, p);
            if k == TokenKindView::Eof {
                Ok(acc)
            } else {
                let one: PR<Option<ItemView>> = if k == TokenKindView::Kriya {
                    match p_function(t, p) {
                        Err(e) => Err(e),
                        Ok((f, q)) => Ok((Some(ItemView::Function(f)), q)),
                    }
                } else if k == TokenKindView::Samracana {
                    match p_struct(t, p) {
                        Err(e) => Err(e),
                        Ok((s, q)) => Ok((Some(ItemView::Struct(s)), q)),
                    }
                } else if k == TokenKindView::Vidhana {
                    match p_impl(t, p) {
                        Err(e) => Err(e),
                        Ok((b, q)) => Ok((Some(ItemView::Impl(b)), q)),
                    }
                } else if k == TokenKindView::DoubleDanda {
                    Ok((None, next_pos(t, p)))
                } else {
                    match p_stmt(t, p) {
                        Err(e) => Err(e),
                        Ok((s, q)) => Ok((Some(ItemView::Statement(s)), q)),
                    }
                };
                match one {
                    Err(e) => Err(e),
                    Ok((item, q)) => if moved(t, p, q) {
                        match item {
                            Some(i) => p_items(t, q, acc.push(i)),
                            None => p_items(t, q, acc),
                        }
                    } else {
                        Err(stalled())
                    },
                }
            }
        }),
{
}

/// One step of `p_program`.
pub proof fn lemma_p_program(t: Toks, p: int)
    ensures
        p_program(t, p) == ({
            match p_items(t, p, Seq::empty()) {
                Ok(items) => Ok(ProgramView { items }),
                Err(e) => Err(e),
            }
        }),
{
}

} // verus!
