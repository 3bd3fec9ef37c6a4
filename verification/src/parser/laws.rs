//! What the parser makes of operator tokens: each operator token becomes the
//! operator that its symbol writes, at its own precedence level.
use vstd::prelude::*;
use crate::ast::{BinaryOp, ExprView, op_symbol};
use crate::token::TokenKindView;
use crate::token_text::kind_text;
use crate::grammar::{Toks, kind_at, moved, binary, equality_op, comparison_op, term_op, factor_op, p_comparison,
    p_term, p_factor, p_unary, p_equality_rest, p_comparison_rest, p_term_rest, p_factor_rest};

verus! {

/// Each operator token stands for the operator written with the same symbol,
/// and every operator token is taken at some precedence level: `<=` is
/// less-or-equal, never strict less, `/` is division, never the remainder.
pub proof fn law_operator_tokens(k: TokenKindView)
    ensures
        equality_op(k) matches Some(op) ==> op_symbol(op) == kind_text(k),
        comparison_op(k) matches Some(op) ==> op_symbol(op) == kind_text(k),
        term_op(k) matches Some(op) ==> op_symbol(op) == kind_text(k),
        factor_op(k) matches Some(op) ==> op_symbol(op) == kind_text(k),
        (k == TokenKindView::EqualEqual || k == TokenKindView::NotEqual) ==> equality_op(k) is Some,
        (k == TokenKindView::Less || k == TokenKindView::LessEqual || k == TokenKindView::Greater
            || k == TokenKindView::GreaterEqual) ==> comparison_op(k) is Some,
        (k == TokenKindView::Plus || k == TokenKindView::Minus) ==> term_op(k) is Some,
        (k == TokenKindView::Star || k == TokenKindView::Slash || k == TokenKindView::Percent) ==> factor_op(k) is Some,
{
}

/// After a left operand, a comparison token and the operand that follows it
/// make one binary expression whose operator is the one the token's symbol
/// writes; parsing goes on after it.
pub proof fn law_comparison_step(t: Toks, left: ExprView, p: int, r: ExprView, p2: int)
    requires
        p < t.len(),
        comparison_op(kind_at(t, p)) is Some,
        p_term(t, p + 1) == Ok::<(ExprView, int), crate::grammar::ParseErrorView>((r, p2)),
        moved(t, p, p2),
    ensures
        op_symbol(comparison_op(kind_at(t, p))->0) == kind_text(kind_at(t, p)),
        p_comparison_rest(t, left, p) == p_comparison_rest(t, binary(left, comparison_op(kind_at(t, p))->0, r), p2),
{
    law_operator_tokens(kind_at(t, p));
}

/// The same for the equality operators `==` and `!=`.
pub proof fn law_equality_step(t: Toks, left: ExprView, p: int, r: ExprView, p2: int)
    requires
        p < t.len(),
        equality_op(kind_at(t, p)) is Some,
        p_comparison(t, p + 1) == Ok::<(ExprView, int), crate::grammar::ParseErrorView>((r, p2)),
        moved(t, p, p2),
    ensures
        op_symbol(equality_op(kind_at(t, p))->0) == kind_text(kind_at(t, p)),
        p_equality_rest(t, left, p) == p_equality_rest(t, binary(left, equality_op(kind_at(t, p))->0, r), p2),
{
    law_operator_tokens(kind_at(t, p));
}

/// The same for `+` and `-`.
pub proof fn law_term_step(t: Toks, left: ExprView, p: int, r: ExprView, p2: int)
    requires
        p < t.len(),
        term_op(kind_at(t, p)) is Some,
        p_factor(t, p + 1) == Ok::<(ExprView, int), crate::grammar::ParseErrorView>((r, p2)),
        moved(t, p, p2),
    ensures
        op_symbol(term_op(kind_at(t, p))->0) == kind_text(kind_at(t, p)),
        p_term_rest(t, left, p) == p_term_rest(t, binary(left, term_op(kind_at(t, p))->0, r), p2),
{
    law_operator_tokens(kind_at(t, p));
}

/// The same for `*`, `/` and `%`.
pub proof fn law_factor_step(t: Toks, left: ExprView, p: int, r: ExprView, p2: int)
    requires
        p < t.len(),
        factor_op(kind_at(t, p)) is Some,
        p_unary(t, p + 1) == Ok::<(ExprView, int), crate::grammar::ParseErrorView>((r, p2)),
        moved(t, p, p2),
    ensures
        op_symbol(factor_op(kind_at(t, p))->0) == kind_text(kind_at(t, p)),
        p_factor_rest(t, left, p) == p_factor_rest(t, binary(left, factor_op(kind_at(t, p))->0, r), p2),
{
    law_operator_tokens(kind_at(t, p));
}

} // verus!
