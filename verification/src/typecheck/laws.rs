//! What the type checker keeps and what two of its steps in a row give.
use vstd::prelude::*;
use crate::span::Span;
use crate::ast::{StmtView, ExprView, ExprKindView, AnnView, BinaryOp};
use crate::types::{TypeView, ann_type};
use crate::typecheck::{TcView, TypeErrorView, VarView, lookup_scopes, tc_expr, binary_type, numeric, lemma_tc_expr, tc_stmt, tc_block, define, enter, exit};

verus! {

/// Leaving a scope just entered gives back the state before.
pub proof fn law_exit_undoes_enter(st: TcView)
    ensures
        exit(enter(st)) == st,
{
    assert(enter(st).scopes.drop_last() =~= st.scopes);
}

/// A variable just defined is the one that a lookup of its name sees.
pub proof fn law_define_then_lookup(st: TcView, name: Seq<char>, ty: TypeView, is_mut: bool, span: Span)
    requires
        st.scopes.len() > 0,
    ensures
        lookup_scopes(define(st, name, ty, is_mut, span).scopes, name) == Some(VarView { ty, is_mut, span }),
{
    let sc = define(st, name, ty, is_mut, span).scopes;
    assert(sc.last() == st.scopes.last().push((name, VarView { ty, is_mut, span })));
}

/// The type a declaration gives its variable.
pub open spec fn declared_type(st: TcView, type_ann: Option<AnnView>, init: ExprView) -> TypeView {
    match type_ann {
        Some(a) => ann_type(a),
        None => tc_expr(st, init)->Ok_0,
    }
}

/// A variable declared immutable (`मान`) cannot be assigned to, nor can a
/// field of it: both are refused with `CannotMutateImmutable`, and the state
/// stays as it was.
pub proof fn law_immutable_rejects_assignment(
    st: TcView,
    name: Seq<char>,
    type_ann: Option<AnnView>,
    init: ExprView,
    span: Span,
    field: Seq<char>,
    value: ExprView,
    span2: Span,
)
    requires
        st.scopes.len() > 0,
        tc_stmt(st, StmtView::VarDecl { name, is_mut: false, type_ann, init, span }).1 is Ok,
    ensures
        ({
            let st1 = tc_stmt(st, StmtView::VarDecl { name, is_mut: false, type_ann, init, span }).0;
            &&& tc_stmt(st1, StmtView::Assignment { target: name, value, span: span2 })
                == (st1, Err::<(), TypeErrorView>(TypeErrorView::CannotMutateImmutable { name, span: span2 }))
            &&& tc_stmt(st1, StmtView::FieldAssignment { target: name, field, value, span: span2 })
                == (st1, Err::<(), TypeErrorView>(TypeErrorView::CannotMutateImmutable { name, span: span2 }))
        }),
{
    law_define_then_lookup(st, name, declared_type(st, type_ann, init), false, span);
}

/// A variable declared mutable (`विकार्य`) takes an assignment of a value of
/// the type it was declared with, and the state stays as it was.
pub proof fn law_mutable_accepts_assignment(
    st: TcView,
    name: Seq<char>,
    type_ann: Option<AnnView>,
    init: ExprView,
    span: Span,
    value: ExprView,
    span2: Span,
)
    requires
        st.scopes.len() > 0,
        tc_stmt(st, StmtView::VarDecl { name, is_mut: true, type_ann, init, span }).1 is Ok,
        tc_expr(tc_stmt(st, StmtView::VarDecl { name, is_mut: true, type_ann, init, span }).0, value)
            == Ok::<TypeView, TypeErrorView>(declared_type(st, type_ann, init)),
    ensures
        ({
            let st1 = tc_stmt(st, StmtView::VarDecl { name, is_mut: true, type_ann, init, span }).0;
            tc_stmt(st1, StmtView::Assignment { target: name, value, span: span2 }) == (st1, Ok::<(), TypeErrorView>(()))
        }),
{
    law_define_then_lookup(st, name, declared_type(st, type_ann, init), true, span);
}

/// Whether a statement left the tables and the return type as they were.
pub open spec fn same_frame(a: TcView, b: TcView) -> bool {
    &&& a.functions == b.functions
    &&& a.structs == b.structs
    &&& a.methods == b.methods
    &&& a.ret == b.ret
}

proof fn lemma_stmt_frame(st: TcView, s: StmtView)
    ensures
        same_frame(tc_stmt(st, s).0, st),
        tc_stmt(st, s).1 is Ok ==> tc_stmt(st, s).0.scopes.len() == st.scopes.len(),
    decreases s, 0int,
{
    match s {
        StmtView::If { condition, then_branch, else_branch, span: _ } => {
            lemma_block_frame(enter(st), then_branch, 0);
            let st1 = tc_block(enter(st), then_branch, 0).0;
            if let Some(els) = else_branch {
                lemma_block_frame(enter(exit(st1)), els, 0);
            }
        },
        StmtView::While { condition, body, span: _ } => {
            lemma_block_frame(enter(st), body, 0);
        },
        _ => {},
    }
}

proof fn lemma_block_frame(st: TcView, stmts: Seq<StmtView>, i: int)
    ensures
        same_frame(tc_block(st, stmts, i).0, st),
        tc_block(st, stmts, i).1 is Ok ==> tc_block(st, stmts, i).0.scopes.len() == st.scopes.len(),
    decreases stmts, stmts.len() - i,
{
    if 0 <= i < stmts.len() {
        lemma_stmt_frame(st, stmts[i]);
        lemma_block_frame(tc_stmt(st, stmts[i]).0, stmts, i + 1);
    }
}

/// A statement never changes the tables of functions, structs and methods
/// nor the return type; and one that passes closes every scope it opened.
pub proof fn law_statement_keeps_frame(st: TcView, s: StmtView)
    ensures
        same_frame(tc_stmt(st, s).0, st),
        tc_stmt(st, s).1 is Ok ==> tc_stmt(st, s).0.scopes.len() == st.scopes.len(),
{
    lemma_stmt_frame(st, s);
}

pub open spec fn is_comparison(op: BinaryOp) -> bool {
    op == BinaryOp::Less || op == BinaryOp::LessEq || op == BinaryOp::Greater || op == BinaryOp::GreaterEq
}

pub open spec fn is_arithmetic(op: BinaryOp) -> bool {
    op == BinaryOp::Add || op == BinaryOp::Sub || op == BinaryOp::Mul || op == BinaryOp::Div || op == BinaryOp::Mod
}

pub open spec fn is_equality(op: BinaryOp) -> bool {
    op == BinaryOp::Equal || op == BinaryOp::NotEqual
}

/// The type of an operator on two operands of one type: comparing two
/// numbers, or testing two values of one type for equality, gives a boolean
/// (द्वैध); arithmetic on two numbers gives a number of their type; `+` on two
/// strings gives a string; comparing two booleans or two strings with `<`,
/// `<=`, `>` or `>=` is refused.
pub proof fn law_operator_types(op: BinaryOp, t: TypeView, span: Span)
    ensures
        is_comparison(op) && numeric(t) ==> binary_type(op, t, t, span) == Ok::<TypeView, TypeErrorView>(TypeView::Dvaidha),
        is_equality(op) ==> binary_type(op, t, t, span) == Ok::<TypeView, TypeErrorView>(TypeView::Dvaidha),
        is_arithmetic(op) && numeric(t) ==> binary_type(op, t, t, span) == Ok::<TypeView, TypeErrorView>(t),
        op == BinaryOp::Add && t == TypeView::Sutra ==> binary_type(op, t, t, span) == Ok::<TypeView, TypeErrorView>(TypeView::Sutra),
        is_comparison(op) && (t == TypeView::Sutra || t == TypeView::Dvaidha) ==> binary_type(op, t, t, span) is Err,
{
}

/// The type of a binary expression whose operands have one type: a
/// comparison of two numbers is a boolean, and so is an equality test of any
/// two values of one type; arithmetic on two numbers has their type.
pub proof fn law_binary_expression_type(st: TcView, e: ExprView, t: TypeView)
    requires
        e.kind is Binary,
        tc_expr(st, *e.kind->Binary_left) == Ok::<TypeView, TypeErrorView>(t),
        tc_expr(st, *e.kind->Binary_right) == Ok::<TypeView, TypeErrorView>(t),
    ensures
        is_comparison(e.kind->Binary_op) && numeric(t) ==> tc_expr(st, e) == Ok::<TypeView, TypeErrorView>(TypeView::Dvaidha),
        is_equality(e.kind->Binary_op) ==> tc_expr(st, e) == Ok::<TypeView, TypeErrorView>(TypeView::Dvaidha),
        is_arithmetic(e.kind->Binary_op) && numeric(t) ==> tc_expr(st, e) == Ok::<TypeView, TypeErrorView>(t),
{
    lemma_tc_expr(st, e);
    law_operator_types(e.kind->Binary_op, t, e.span);
}

} // verus!
