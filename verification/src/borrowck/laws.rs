//! What the borrow checker keeps and what two of its steps in a row give.
use vstd::prelude::*;
use crate::span::Span;
use crate::ast::{ExprView, ExprKindView, StmtView,  ItemView, FunctionView, ParamView, ProgramView};
use crate::types::{TypeView, is_copy_spec, ann_type};
use crate::typecheck::builtin_at;
use crate::borrowck::{BorrowErrorView, BindView, BcView, last_index, locate, binding, set_binding, push_temp, bc_borrow_name, bc_use, bc_define, bc_enter, bc_exit, bc_read_or_move, bc_read, bc_read_args, reads_all, bc_move_args, bc_move_fields, bc_internal, bc_stmt, bc_block, bc_params, bc_function, bc_functions, bc_items, bc_program, bc_new, release, sat_inc, lemma_locate};

verus! {

/// The names of two scope stacks agree, entry by entry.
pub open spec fn same_names(a: Seq<Seq<(Seq<char>, BindView)>>, b: Seq<Seq<(Seq<char>, BindView)>>) -> bool {
    &&& a.len() == b.len()
    &&& forall|i: int| 0 <= i < a.len() ==> (#[trigger] a[i]).len() == b[i].len()
    &&& forall|i: int, j: int| 0 <= i < a.len() && 0 <= j < a[i].len() ==> (#[trigger] a[i][j]).0 == b[i][j].0
}

proof fn lemma_last_index_names(a: Seq<(Seq<char>, BindView)>, b: Seq<(Seq<char>, BindView)>, k: Seq<char>)
    requires
        a.len() == b.len(),
        forall|j: int| 0 <= j < a.len() ==> (#[trigger] a[j]).0 == b[j].0,
    ensures
        last_index(a, k) == last_index(b, k),
    decreases a.len(),
{
    if a.len() > 0 {
        assert(a.last().0 == b.last().0);
        lemma_last_index_names(a.drop_last(), b.drop_last(), k);
    }
}

/// A lookup reads only the names.
proof fn lemma_locate_names(a: Seq<Seq<(Seq<char>, BindView)>>, b: Seq<Seq<(Seq<char>, BindView)>>, k: Seq<char>)
    requires
        same_names(a, b),
    ensures
        locate(a, k) == locate(b, k),
    decreases a.len(),
{
    if a.len() > 0 {
        let n = a.len() - 1;
        assert(a[n].len() == b[n].len());
        assert forall|j: int| 0 <= j < a.last().len() implies (#[trigger] a.last()[j]).0 == b.last()[j].0 by {
            assert(a[n][j].0 == b[n][j].0);
        }
        lemma_last_index_names(a.last(), b.last(), k);
        let a2 = a.drop_last();
        let b2 = b.drop_last();
        assert forall|i: int| 0 <= i < a2.len() implies (#[trigger] a2[i]).len() == b2[i].len() by {
            assert(a[i].len() == b[i].len());
        }
        assert forall|i: int, j: int| 0 <= i < a2.len() && 0 <= j < a2[i].len() implies (#[trigger] a2[i][j]).0
            == b2[i][j].0 by {
            assert(a[i][j].0 == b[i][j].0);
        }
        lemma_locate_names(a2, b2, k);
    }
}

/// Changing what is known of a binding keeps every name where it was.
proof fn lemma_set_binding_names(st: BcView, loc: (int, int), b: BindView)
    requires
        0 <= loc.0 < st.scopes.len(),
        0 <= loc.1 < st.scopes[loc.0].len(),
    ensures
        same_names(set_binding(st, loc, b).scopes, st.scopes),
        binding(set_binding(st, loc, b), loc) == b,
{
    let s2 = set_binding(st, loc, b).scopes;
    assert forall|i: int| 0 <= i < s2.len() implies (#[trigger] s2[i]).len() == st.scopes[i].len() by {}
    assert forall|i: int, j: int| 0 <= i < s2.len() && 0 <= j < s2[i].len() implies (#[trigger] s2[i][j]).0
        == st.scopes[i][j].0 by {}
}

/// A variable just defined is the one that a lookup of its name finds, not
/// moved and not borrowed: a definition shadows every earlier one.
pub proof fn law_define_then_locate(st: BcView, name: Seq<char>, ty: TypeView, is_mut: bool)
    requires
        st.scopes.len() > 0,
    ensures
        locate(bc_define(st, name, ty, is_mut).scopes, name) == Some(
            (st.scopes.len() - 1, st.scopes.last().len() as int),
        ),
        binding(bc_define(st, name, ty, is_mut), (st.scopes.len() - 1, st.scopes.last().len() as int)) == (BindView {
            ty,
            is_mut,
            moved_at: None,
            shared: 0,
            mut_borrowed: false,
        }),
{
    let sc = bc_define(st, name, ty, is_mut).scopes;
    assert(sc.last() == st.scopes.last().push((name, BindView { ty, is_mut, moved_at: None, shared: 0, mut_borrowed: false })));
}

/// Leaving a scope just entered gives back the state before.
pub proof fn law_exit_undoes_enter(st: BcView)
    ensures
        bc_exit(bc_enter(st)) == st,
{
    assert(bc_enter(st).scopes.drop_last() =~= st.scopes);
}

/// Once a variable is mutably borrowed, no other borrow of it, mutable or
/// shared, is accepted until that borrow is released.
pub proof fn law_mut_borrow_is_exclusive(st: BcView, name: Seq<char>, span1: Span, span2: Span)
    requires
        locate(st.scopes, name) is Some,
        bc_borrow_name(st, name, true, span1).1 is Ok,
    ensures
        bc_borrow_name(bc_borrow_name(st, name, true, span1).0, name, true, span2).1
            == Err::<(), BorrowErrorView>(BorrowErrorView::AlreadyMutablyBorrowed { name, span: span2 }),
        bc_borrow_name(bc_borrow_name(st, name, true, span1).0, name, false, span2).1
            == Err::<(), BorrowErrorView>(BorrowErrorView::BorrowWhileMutablyBorrowed { name, span: span2 }),
{
    let loc = locate(st.scopes, name)->0;
    lemma_locate(st.scopes, name);
    let b = binding(st, loc);
    let mid = set_binding(st, loc, BindView { mut_borrowed: true, ..b });
    lemma_set_binding_names(st, loc, BindView { mut_borrowed: true, ..b });
    lemma_locate_names(mid.scopes, st.scopes, name);
    let st1 = bc_borrow_name(st, name, true, span1).0;
    assert(st1 == push_temp(mid, name, true));
}

/// While a variable is borrowed shared, a mutable borrow of it is refused.
pub proof fn law_shared_borrow_blocks_mut(st: BcView, name: Seq<char>, span1: Span, span2: Span)
    requires
        locate(st.scopes, name) is Some,
        bc_borrow_name(st, name, false, span1).1 is Ok,
    ensures
        bc_borrow_name(bc_borrow_name(st, name, false, span1).0, name, true, span2).1
            == Err::<(), BorrowErrorView>(BorrowErrorView::MutBorrowWhileImmutablyBorrowed { name, span: span2 }),
        bc_borrow_name(bc_borrow_name(st, name, false, span1).0, name, false, span2).1 is Ok,
{
    let loc = locate(st.scopes, name)->0;
    lemma_locate(st.scopes, name);
    let b = binding(st, loc);
    let nb = BindView { shared: crate::borrowck::sat_inc(b.shared), ..b };
    let mid = set_binding(st, loc, nb);
    lemma_set_binding_names(st, loc, nb);
    lemma_locate_names(mid.scopes, st.scopes, name);
    let st1 = bc_borrow_name(st, name, false, span1).0;
    assert(st1 == push_temp(mid, name, false));
}

/// A variable whose type is not copied, once moved out, cannot be used:
/// the use is refused and names where the move took place.
pub proof fn law_use_after_move(st: BcView, name: Seq<char>, span1: Span, span2: Span)
    requires
        locate(st.scopes, name) is Some,
        !is_copy_spec(binding(st, locate(st.scopes, name)->0).ty),
        bc_read_or_move(st, ExprView { kind: ExprKindView::Identifier(name), span: span1 }).1 is Ok,
    ensures
        bc_use(bc_read_or_move(st, ExprView { kind: ExprKindView::Identifier(name), span: span1 }).0, name, span2).1
            == Err::<(), BorrowErrorView>(BorrowErrorView::UseAfterMove { name, span: span2, moved_at: span1 }),
        bc_borrow_name(bc_read_or_move(st, ExprView { kind: ExprKindView::Identifier(name), span: span1 }).0, name, false, span2).1
            == Err::<(), BorrowErrorView>(BorrowErrorView::BorrowMoved { name, span: span2 }),
{
    let loc = locate(st.scopes, name)->0;
    lemma_locate(st.scopes, name);
    let b = binding(st, loc);
    let nb = BindView { moved_at: Some(span1), ..b };
    lemma_set_binding_names(st, loc, nb);
    lemma_locate_names(set_binding(st, loc, nb).scopes, st.scopes, name);
}

/// No variable is at once borrowed shared and borrowed mutably.
pub open spec fn exclusive(st: BcView) -> bool {
    forall|i: int, j: int|
        0 <= i < st.scopes.len() && 0 <= j < st.scopes[i].len() ==> !((#[trigger] st.scopes[i][j]).1.shared > 0
            && st.scopes[i][j].1.mut_borrowed)
}

proof fn lemma_set_binding_exclusive(st: BcView, loc: (int, int), b: BindView)
    requires
        exclusive(st),
        0 <= loc.0 < st.scopes.len(),
        0 <= loc.1 < st.scopes[loc.0].len(),
        !(b.shared > 0 && b.mut_borrowed),
    ensures
        exclusive(set_binding(st, loc, b)),
{
    let s2 = set_binding(st, loc, b).scopes;
    assert forall|i: int, j: int| 0 <= i < s2.len() && 0 <= j < s2[i].len() implies !((#[trigger] s2[i][j]).1.shared
        > 0 && s2[i][j].1.mut_borrowed) by {
        if i != loc.0 || j != loc.1 {
            assert(s2[i][j] == st.scopes[i][j]);
        }
    }
}

proof fn lemma_define_exclusive(st: BcView, name: Seq<char>, ty: TypeView, is_mut: bool)
    requires
        exclusive(st),
    ensures
        exclusive(bc_define(st, name, ty, is_mut)),
{
    let s2 = bc_define(st, name, ty, is_mut).scopes;
    if st.scopes.len() > 0 {
        assert forall|i: int, j: int| 0 <= i < s2.len() && 0 <= j < s2[i].len() implies !((#[trigger] s2[i][j]).1.shared
            > 0 && s2[i][j].1.mut_borrowed) by {
            if i != st.scopes.len() - 1 || j != st.scopes.last().len() {
                assert(s2[i][j] == st.scopes[i][j]);
            }
        }
    }
}

proof fn lemma_enter_exit_exclusive(st: BcView)
    requires
        exclusive(st),
    ensures
        exclusive(bc_enter(st)),
        exclusive(bc_exit(st)),
{
    let s2 = bc_enter(st).scopes;
    assert forall|i: int, j: int| 0 <= i < s2.len() && 0 <= j < s2[i].len() implies !((#[trigger] s2[i][j]).1.shared
        > 0 && s2[i][j].1.mut_borrowed) by {
        assert(s2[i][j] == st.scopes[i][j]);
    }
    let s3 = bc_exit(st).scopes;
    assert forall|i: int, j: int| 0 <= i < s3.len() && 0 <= j < s3[i].len() implies !((#[trigger] s3[i][j]).1.shared
        > 0 && s3[i][j].1.mut_borrowed) by {
        assert(s3[i][j] == st.scopes[i][j]);
    }
}

proof fn lemma_borrow_exclusive(st: BcView, name: Seq<char>, is_mut: bool, span: Span)
    requires
        exclusive(st),
    ensures
        exclusive(bc_borrow_name(st, name, is_mut, span).0),
{
    lemma_locate(st.scopes, name);
    if let Some(loc) = locate(st.scopes, name) {
        let b = binding(st, loc);
        if b.moved_at is None {
            if is_mut {
                if b.shared == 0 && !b.mut_borrowed {
                    lemma_set_binding_exclusive(st, loc, BindView { mut_borrowed: true, ..b });
                }
            } else if !b.mut_borrowed {
                lemma_set_binding_exclusive(st, loc, BindView { shared: sat_inc(b.shared), ..b });
            }
        }
    }
}

proof fn lemma_release_exclusive(st: BcView, temps: Seq<(Seq<char>, bool)>, i: int)
    requires
        exclusive(st),
    ensures
        exclusive(release(st, temps, i)),
    decreases temps.len() - i,
{
    if 0 <= i < temps.len() {
        let (name, is_mut) = temps[i];
        lemma_locate(st.scopes, name);
        let st1 = match locate(st.scopes, name) {
            Some(loc) => {
                let b = binding(st, loc);
                if is_mut {
                    set_binding(st, loc, BindView { mut_borrowed: false, ..b })
                } else if b.shared > 0 {
                    set_binding(st, loc, BindView { shared: (b.shared - 1) as usize, ..b })
                } else {
                    st
                }
            },
            None => st,
        };
        if let Some(loc) = locate(st.scopes, name) {
            let b = binding(st, loc);
            assert(st.scopes[loc.0][loc.1].1 == b);
            if is_mut {
                lemma_set_binding_exclusive(st, loc, BindView { mut_borrowed: false, ..b });
            } else if b.shared > 0 {
                lemma_set_binding_exclusive(st, loc, BindView { shared: (b.shared - 1) as usize, ..b });
            }
        }
        lemma_release_exclusive(st1, temps, i + 1);
    }
}

proof fn lemma_read_exclusive(st: BcView, e: ExprView)
    requires
        exclusive(st),
    ensures
        exclusive(bc_read(st, e).0),
    decreases e, 2int,
{
    match e.kind {
        ExprKindView::Identifier(_) => {},
        ExprKindView::Borrow { is_mut, expr: inner } => match inner.kind {
            ExprKindView::Identifier(name) => lemma_borrow_exclusive(st, name, is_mut, e.span),
            _ => lemma_read_exclusive(st, *inner),
        },
        ExprKindView::Binary { left, op: _, right } => {
            lemma_read_exclusive(st, *left);
            lemma_read_exclusive(bc_read(st, *left).0, *right);
        },
        ExprKindView::Unary { op: _, expr: inner } => lemma_read_exclusive(st, *inner),
        ExprKindView::Call { callee, args } => {
            lemma_read_args_exclusive(st, args, 0);
            lemma_move_args_exclusive(st, args, 0);
            if args.len() > 0 {
                lemma_read_exclusive(st, args[0]);
                lemma_move_args_exclusive(bc_read(st, args[0]).0, args, 1);
            }
        },
        ExprKindView::FieldAccess { target, field: _ } => lemma_read_exclusive(st, *target),
        ExprKindView::MethodCall { target, method: _, args } => {
            lemma_read_exclusive(st, *target);
            lemma_move_args_exclusive(bc_read(st, *target).0, args, 0);
        },
        ExprKindView::StructInit { name: _, fields } => lemma_move_fields_exclusive(st, fields, 0),
        ExprKindView::ArrayLiteral(elems) => lemma_move_args_exclusive(st, elems, 0),
        ExprKindView::Index { target, index } => {
            lemma_read_exclusive(st, *target);
            lemma_read_exclusive(bc_read(st, *target).0, *index);
        },
        _ => {},
    }
}

proof fn lemma_read_or_move_exclusive(st: BcView, e: ExprView)
    requires
        exclusive(st),
    ensures
        exclusive(bc_read_or_move(st, e).0),
    decreases e, 3int,
{
    match e.kind {
        ExprKindView::Identifier(name) => {
            lemma_locate(st.scopes, name);
            if let Some(loc) = locate(st.scopes, name) {
                let b = binding(st, loc);
                assert(st.scopes[loc.0][loc.1].1 == b);
                lemma_set_binding_exclusive(st, loc, BindView { moved_at: Some(e.span), ..b });
            }
        },
        _ => lemma_read_exclusive(st, e),
    }
}

proof fn lemma_read_args_exclusive(st: BcView, args: Seq<ExprView>, i: int)
    requires
        exclusive(st),
    ensures
        exclusive(bc_read_args(st, args, i).0),
    decreases args, args.len() - i,
{
    if 0 <= i < args.len() {
        lemma_read_exclusive(st, args[i]);
        lemma_read_args_exclusive(bc_read(st, args[i]).0, args, i + 1);
    }
}

proof fn lemma_move_args_exclusive(st: BcView, args: Seq<ExprView>, i: int)
    requires
        exclusive(st),
    ensures
        exclusive(bc_move_args(st, args, i).0),
    decreases args, args.len() - i,
{
    if 0 <= i < args.len() {
        lemma_read_or_move_exclusive(st, args[i]);
        lemma_move_args_exclusive(bc_read_or_move(st, args[i]).0, args, i + 1);
    }
}

proof fn lemma_move_fields_exclusive(st: BcView, fields: Seq<(Seq<char>, ExprView)>, i: int)
    requires
        exclusive(st),
    ensures
        exclusive(bc_move_fields(st, fields, i).0),
    decreases fields, fields.len() - i,
{
    if 0 <= i < fields.len() {
        lemma_read_or_move_exclusive(st, fields[i].1);
        lemma_move_fields_exclusive(bc_read_or_move(st, fields[i].1).0, fields, i + 1);
    }
}

proof fn lemma_internal_exclusive(st: BcView, s: StmtView)
    requires
        exclusive(st),
    ensures
        exclusive(bc_internal(st, s).0),
    decreases s, 1int,
{
    match s {
        StmtView::VarDecl { name, is_mut, type_ann, init, span: _ } => {
            lemma_read_or_move_exclusive(st, init);
            lemma_define_exclusive(bc_read_or_move(st, init).0, name, crate::borrowck::decl_type(type_ann, init), is_mut);
        },
        StmtView::Assignment { target: _, value, span: _ } => lemma_read_or_move_exclusive(st, value),
        StmtView::FieldAssignment { target: _, field: _, value, span: _ } => lemma_read_or_move_exclusive(st, value),
        StmtView::If { condition, then_branch, else_branch, span: _ } => {
            lemma_read_exclusive(st, condition);
            let s1 = bc_read(st, condition).0;
            lemma_enter_exit_exclusive(s1);
            lemma_block_exclusive(bc_enter(s1), then_branch, 0);
            let s2 = bc_block(bc_enter(s1), then_branch, 0).0;
            lemma_enter_exit_exclusive(s2);
            if let Some(els) = else_branch {
                lemma_enter_exit_exclusive(bc_exit(s2));
                lemma_block_exclusive(bc_enter(bc_exit(s2)), els, 0);
                lemma_enter_exit_exclusive(bc_block(bc_enter(bc_exit(s2)), els, 0).0);
            }
        },
        StmtView::While { condition, body, span: _ } => {
            lemma_read_exclusive(st, condition);
            let s1 = bc_read(st, condition).0;
            lemma_enter_exit_exclusive(s1);
            lemma_block_exclusive(bc_enter(s1), body, 0);
            lemma_enter_exit_exclusive(bc_block(bc_enter(s1), body, 0).0);
        },
        StmtView::Return { value, span: _ } => {
            if let Some(v) = value {
                lemma_read_or_move_exclusive(st, v);
            }
        },
        StmtView::IndexAssignment { target, index, value, span: _ } => {
            lemma_read_exclusive(st, *target);
            let s1 = bc_read(st, *target).0;
            lemma_read_exclusive(s1, *index);
            lemma_read_or_move_exclusive(bc_read(s1, *index).0, value);
        },
        StmtView::Expr(e) => lemma_read_exclusive(st, e),
    }
}

proof fn lemma_stmt_exclusive(st: BcView, s: StmtView)
    requires
        exclusive(st),
    ensures
        exclusive(bc_stmt(st, s).0),
    decreases s, 2int,
{
    lemma_internal_exclusive(st, s);
    let s1 = bc_internal(st, s).0;
    let cleared = BcView { temps: Seq::empty(), ..s1 };
    assert(cleared.scopes == s1.scopes);
    lemma_release_exclusive(cleared, s1.temps, 0);
}

proof fn lemma_block_exclusive(st: BcView, stmts: Seq<StmtView>, i: int)
    requires
        exclusive(st),
    ensures
        exclusive(bc_block(st, stmts, i).0),
    decreases stmts, stmts.len() - i,
{
    if 0 <= i < stmts.len() {
        lemma_stmt_exclusive(st, stmts[i]);
        lemma_block_exclusive(bc_stmt(st, stmts[i]).0, stmts, i + 1);
    }
}

proof fn lemma_params_exclusive(st: BcView, params: Seq<ParamView>, j: int)
    requires
        exclusive(st),
    ensures
        exclusive(bc_params(st, params, j)),
    decreases params.len() - j,
{
    if 0 <= j < params.len() {
        lemma_define_exclusive(st, params[j].name, ann_type(params[j].type_ann), false);
        lemma_params_exclusive(bc_define(st, params[j].name, ann_type(params[j].type_ann), false), params, j + 1);
    }
}

proof fn lemma_function_exclusive(st: BcView, f: FunctionView)
    requires
        exclusive(st),
    ensures
        exclusive(bc_function(st, f).0),
{
    lemma_enter_exit_exclusive(st);
    lemma_params_exclusive(bc_enter(st), f.params, 0);
    let s0 = bc_params(bc_enter(st), f.params, 0);
    lemma_block_exclusive(s0, f.body, 0);
    lemma_enter_exit_exclusive(bc_block(s0, f.body, 0).0);
}

proof fn lemma_functions_exclusive(st: BcView, fs: Seq<FunctionView>, j: int)
    requires
        exclusive(st),
    ensures
        exclusive(bc_functions(st, fs, j).0),
    decreases fs.len() - j,
{
    if 0 <= j < fs.len() {
        lemma_function_exclusive(st, fs[j]);
        lemma_functions_exclusive(bc_function(st, fs[j]).0, fs, j + 1);
    }
}

proof fn lemma_items_exclusive(st: BcView, items: Seq<ItemView>, i: int)
    requires
        exclusive(st),
    ensures
        exclusive(bc_items(st, items, i).0),
    decreases items.len() - i,
{
    if 0 <= i < items.len() {
        let s1 = match items[i] {
            ItemView::Function(f) => {
                lemma_function_exclusive(st, f);
                bc_function(st, f).0
            },
            ItemView::Impl(b) => {
                lemma_functions_exclusive(st, b.methods, 0);
                bc_functions(st, b.methods, 0).0
            },
            ItemView::Statement(s) => {
                lemma_stmt_exclusive(st, s);
                bc_stmt(st, s).0
            },
            _ => st,
        };
        lemma_items_exclusive(s1, items, i + 1);
    }
}

/// One statement, checked from a state where no variable is both shared and
/// mutably borrowed, leaves a state where none is either, whether the check
/// succeeds or fails.
pub proof fn law_statement_keeps_borrows_exclusive(st: BcView, s: StmtView)
    requires
        exclusive(st),
    ensures
        exclusive(bc_stmt(st, s).0),
{
    lemma_stmt_exclusive(st, s);
}

/// Checking a whole program from a fresh checker never reaches a state in
/// which a variable is borrowed shared and mutably at once.
pub proof fn law_program_keeps_borrows_exclusive(p: ProgramView)
    ensures
        exclusive(bc_new()),
        exclusive(bc_program(bc_new(), p).0),
{
    lemma_items_exclusive(bc_new(), p.items, 0);
}

/// A borrow taken by an expression statement lasts only for that statement:
/// after it, the variable is as it was before, and no borrow is pending.
pub proof fn law_expression_borrow_released(st: BcView, name: Seq<char>, is_mut: bool, span: Span, bspan: Span)
    requires
        st.temps.len() == 0,
        locate(st.scopes, name) is Some,
        bc_borrow_name(st, name, is_mut, bspan).1 is Ok,
        is_mut || binding(st, locate(st.scopes, name)->0).shared < usize::MAX,
    ensures
        bc_stmt(
            st,
            StmtView::Expr(ExprView {
                kind: ExprKindView::Borrow {
                    is_mut,
                    expr: Box::new(ExprView { kind: ExprKindView::Identifier(name), span }),
                },
                span: bspan,
            }),
        ) == (st, Ok::<(), BorrowErrorView>(())),
{
    let loc = locate(st.scopes, name)->0;
    lemma_locate(st.scopes, name);
    let b = binding(st, loc);
    let nb = if is_mut { BindView { mut_borrowed: true, ..b } } else { BindView { shared: sat_inc(b.shared), ..b } };
    let mid = set_binding(st, loc, nb);
    lemma_set_binding_names(st, loc, nb);
    lemma_locate_names(mid.scopes, st.scopes, name);
    let cleared = BcView { temps: Seq::empty(), ..mid };
    assert(locate(cleared.scopes, name) == Some(loc));
    assert(binding(cleared, loc) == nb);
    let back = if is_mut { BindView { mut_borrowed: false, ..nb } } else { BindView { shared: (nb.shared - 1) as usize, ..nb } };
    assert(back == b);
    let fin = set_binding(cleared, loc, back);
    assert(fin.scopes[loc.0] =~= st.scopes[loc.0]);
    assert(fin.scopes =~= st.scopes);
    assert(fin.temps =~= st.temps);
    assert(push_temp(mid, name, is_mut).temps =~= seq![(name, is_mut)]);
    assert(release(fin, seq![(name, is_mut)], 1) == fin);
}

proof fn lemma_read_shape(st: BcView, e: ExprView)
    ensures
        same_names(bc_read(st, e).0.scopes, st.scopes),
    decreases e, 2int,
{
    lemma_same_names_refl(st.scopes);
    match e.kind {
        ExprKindView::Borrow { is_mut, expr: inner } => match inner.kind {
            ExprKindView::Identifier(name) => {
                lemma_locate(st.scopes, name);
                if let Some(loc) = locate(st.scopes, name) {
                    let b = binding(st, loc);
                    lemma_set_binding_names(st, loc, BindView { mut_borrowed: true, ..b });
                    lemma_set_binding_names(st, loc, BindView { shared: sat_inc(b.shared), ..b });
                }
            },
            _ => lemma_read_shape(st, *inner),
        },
        ExprKindView::Binary { left, op: _, right } => {
            lemma_read_shape(st, *left);
            lemma_read_shape(bc_read(st, *left).0, *right);
            lemma_same_names_trans(bc_read(bc_read(st, *left).0, *right).0.scopes, bc_read(st, *left).0.scopes, st.scopes);
        },
        ExprKindView::Unary { op: _, expr: inner } => lemma_read_shape(st, *inner),
        ExprKindView::Call { callee, args } => {
            lemma_read_args_shape(st, args, 0);
            lemma_move_args_shape(st, args, 0);
            if args.len() > 0 {
                lemma_read_shape(st, args[0]);
                lemma_move_args_shape(bc_read(st, args[0]).0, args, 1);
                lemma_same_names_trans(bc_move_args(bc_read(st, args[0]).0, args, 1).0.scopes, bc_read(st, args[0]).0.scopes, st.scopes);
            }
        },
        ExprKindView::FieldAccess { target, field: _ } => lemma_read_shape(st, *target),
        ExprKindView::MethodCall { target, method: _, args } => {
            lemma_read_shape(st, *target);
            lemma_move_args_shape(bc_read(st, *target).0, args, 0);
            lemma_same_names_trans(bc_move_args(bc_read(st, *target).0, args, 0).0.scopes, bc_read(st, *target).0.scopes, st.scopes);
        },
        ExprKindView::StructInit { name: _, fields } => lemma_move_fields_shape(st, fields, 0),
        ExprKindView::ArrayLiteral(elems) => lemma_move_args_shape(st, elems, 0),
        ExprKindView::Index { target, index } => {
            lemma_read_shape(st, *target);
            lemma_read_shape(bc_read(st, *target).0, *index);
            lemma_same_names_trans(bc_read(bc_read(st, *target).0, *index).0.scopes, bc_read(st, *target).0.scopes, st.scopes);
        },
        _ => {},
    }
}

proof fn lemma_read_or_move_shape(st: BcView, e: ExprView)
    ensures
        same_names(bc_read_or_move(st, e).0.scopes, st.scopes),
    decreases e, 3int,
{
    lemma_same_names_refl(st.scopes);
    match e.kind {
        ExprKindView::Identifier(name) => {
            lemma_locate(st.scopes, name);
            if let Some(loc) = locate(st.scopes, name) {
                let b = binding(st, loc);
                lemma_set_binding_names(st, loc, BindView { moved_at: Some(e.span), ..b });
            }
        },
        _ => lemma_read_shape(st, e),
    }
}

proof fn lemma_read_args_shape(st: BcView, args: Seq<ExprView>, i: int)
    ensures
        same_names(bc_read_args(st, args, i).0.scopes, st.scopes),
    decreases args, args.len() - i,
{
    lemma_same_names_refl(st.scopes);
    if 0 <= i < args.len() {
        let s1 = bc_read(st, args[i]).0;
        lemma_read_shape(st, args[i]);
        lemma_read_args_shape(s1, args, i + 1);
        lemma_same_names_trans(bc_read_args(s1, args, i + 1).0.scopes, s1.scopes, st.scopes);
    }
}

proof fn lemma_move_args_shape(st: BcView, args: Seq<ExprView>, i: int)
    ensures
        same_names(bc_move_args(st, args, i).0.scopes, st.scopes),
    decreases args, args.len() - i,
{
    lemma_same_names_refl(st.scopes);
    if 0 <= i < args.len() {
        let s1 = bc_read_or_move(st, args[i]).0;
        lemma_read_or_move_shape(st, args[i]);
        lemma_move_args_shape(s1, args, i + 1);
        lemma_same_names_trans(bc_move_args(s1, args, i + 1).0.scopes, s1.scopes, st.scopes);
    }
}

proof fn lemma_move_fields_shape(st: BcView, fields: Seq<(Seq<char>, ExprView)>, i: int)
    ensures
        same_names(bc_move_fields(st, fields, i).0.scopes, st.scopes),
    decreases fields, fields.len() - i,
{
    lemma_same_names_refl(st.scopes);
    if 0 <= i < fields.len() {
        let s1 = bc_read_or_move(st, fields[i].1).0;
        lemma_read_or_move_shape(st, fields[i].1);
        lemma_move_fields_shape(s1, fields, i + 1);
        lemma_same_names_trans(bc_move_fields(s1, fields, i + 1).0.scopes, s1.scopes, st.scopes);
    }
}

proof fn lemma_same_names_refl(a: Seq<Seq<(Seq<char>, BindView)>>)
    ensures
        same_names(a, a),
{
}

proof fn lemma_same_names_trans(a: Seq<Seq<(Seq<char>, BindView)>>, b: Seq<Seq<(Seq<char>, BindView)>>, c: Seq<Seq<(Seq<char>, BindView)>>)
    requires
        same_names(a, b),
        same_names(b, c),
    ensures
        same_names(a, c),
{
    assert forall|i: int| 0 <= i < a.len() implies (#[trigger] a[i]).len() == c[i].len() by {
        assert(b[i].len() == c[i].len());
    }
    assert forall|i: int, j: int| 0 <= i < a.len() && 0 <= j < a[i].len() implies (#[trigger] a[i][j]).0 == c[i][j].0 by {
        assert(b[i][j].0 == c[i][j].0);
    }
}

/// Reading an expression, or moving out of it, never adds, removes or
/// renames a variable: it only changes what is known of them.
pub proof fn law_expression_keeps_variables(st: BcView, e: ExprView)
    ensures
        same_names(bc_read(st, e).0.scopes, st.scopes),
        same_names(bc_read_or_move(st, e).0.scopes, st.scopes),
{
    lemma_read_shape(st, e);
    lemma_read_or_move_shape(st, e);
}

proof fn lemma_release_depth(st: BcView, temps: Seq<(Seq<char>, bool)>, i: int)
    ensures
        release(st, temps, i).scopes.len() == st.scopes.len(),
    decreases temps.len() - i,
{
    if 0 <= i < temps.len() {
        let (name, is_mut) = temps[i];
        let st1 = match locate(st.scopes, name) {
            Some(loc) => {
                let b = binding(st, loc);
                if is_mut {
                    set_binding(st, loc, BindView { mut_borrowed: false, ..b })
                } else if b.shared > 0 {
                    set_binding(st, loc, BindView { shared: (b.shared - 1) as usize, ..b })
                } else {
                    st
                }
            },
            None => st,
        };
        lemma_locate(st.scopes, name);
        lemma_release_depth(st1, temps, i + 1);
    }
}

proof fn lemma_stmt_depth(st: BcView, s: StmtView)
    ensures
        bc_stmt(st, s).1 is Ok ==> bc_stmt(st, s).0.scopes.len() == st.scopes.len(),
    decreases s, 2int,
{
    let s1 = bc_internal(st, s).0;
    lemma_release_depth(BcView { temps: Seq::empty(), ..s1 }, s1.temps, 0);
    match s {
        StmtView::VarDecl { name: _, is_mut: _, type_ann: _, init, span: _ } => lemma_read_or_move_shape(st, init),
        StmtView::Assignment { target: _, value, span: _ } => lemma_read_or_move_shape(st, value),
        StmtView::FieldAssignment { target: _, field: _, value, span: _ } => lemma_read_or_move_shape(st, value),
        StmtView::If { condition, then_branch, else_branch, span: _ } => {
            lemma_read_shape(st, condition);
            let c = bc_read(st, condition).0;
            lemma_block_depth(bc_enter(c), then_branch, 0);
            let s2 = bc_block(bc_enter(c), then_branch, 0).0;
            if let Some(els) = else_branch {
                lemma_block_depth(bc_enter(bc_exit(s2)), els, 0);
            }
        },
        StmtView::While { condition, body, span: _ } => {
            lemma_read_shape(st, condition);
            lemma_block_depth(bc_enter(bc_read(st, condition).0), body, 0);
        },
        StmtView::Return { value, span: _ } => {
            if let Some(v) = value {
                lemma_read_or_move_shape(st, v);
            }
        },
        StmtView::IndexAssignment { target, index, value, span: _ } => {
            lemma_read_shape(st, *target);
            let t = bc_read(st, *target).0;
            lemma_read_shape(t, *index);
            lemma_read_or_move_shape(bc_read(t, *index).0, value);
        },
        StmtView::Expr(e) => lemma_read_shape(st, e),
    }
}

proof fn lemma_block_depth(st: BcView, stmts: Seq<StmtView>, i: int)
    ensures
        bc_block(st, stmts, i).1 is Ok ==> bc_block(st, stmts, i).0.scopes.len() == st.scopes.len(),
    decreases stmts, stmts.len() - i,
{
    if 0 <= i < stmts.len() {
        lemma_stmt_depth(st, stmts[i]);
        lemma_block_depth(bc_stmt(st, stmts[i]).0, stmts, i + 1);
    }
}

/// A statement that passes the borrow check closes every scope it opened,
/// and leaves no borrow pending beyond those its variable keeps.
pub proof fn law_statement_closes_its_scopes(st: BcView, s: StmtView)
    ensures
        bc_stmt(st, s).1 is Ok ==> bc_stmt(st, s).0.scopes.len() == st.scopes.len(),
        bc_stmt(st, s).0.temps.len() == 0,
{
    lemma_stmt_depth(st, s);
    let s1 = bc_internal(st, s).0;
    lemma_release_temps(BcView { temps: Seq::empty(), ..s1 }, s1.temps, 0);
}

proof fn lemma_release_temps(st: BcView, temps: Seq<(Seq<char>, bool)>, i: int)
    ensures
        release(st, temps, i).temps == st.temps,
    decreases temps.len() - i,
{
    if 0 <= i < temps.len() {
        let (name, is_mut) = temps[i];
        let st1 = match locate(st.scopes, name) {
            Some(loc) => {
                let b = binding(st, loc);
                if is_mut {
                    set_binding(st, loc, BindView { mut_borrowed: false, ..b })
                } else if b.shared > 0 {
                    set_binding(st, loc, BindView { shared: (b.shared - 1) as usize, ..b })
                } else {
                    st
                }
            },
            None => st,
        };
        lemma_release_temps(st1, temps, i + 1);
    }
}

proof fn lemma_read_names(st: BcView, args: Seq<ExprView>, i: int)
    requires
        0 <= i <= args.len(),
        forall|j: int| 0 <= j < args.len() ==> (#[trigger] args[j]).kind is Identifier,
    ensures
        bc_read_args(st, args, i).0 == st,
        bc_read_args(st, args, i).1 is Ok <==> forall|j: int|
            i <= j < args.len() ==> (#[trigger] bc_use(st, args[j].kind->Identifier_0, args[j].span)).1 is Ok,
    decreases args.len() - i,
{
    if i < args.len() {
        let a = args[i];
        assert(a.kind is Identifier);
        lemma_read_names(st, args, i + 1);
        assert(bc_read(st, a) == bc_use(st, a.kind->Identifier_0, a.span));
        assert(bc_use(st, a.kind->Identifier_0, a.span).0 == st);
    }
}

/// Printing with `मुद्रय` only reads what it prints: a print of variables
/// leaves every variable as it was (none is moved, none stays borrowed), and
/// it is refused exactly when one of them was moved before. So a value that
/// is not copied can be printed any number of times.
pub proof fn law_print_never_moves(st: BcView, args: Seq<ExprView>, span: Span)
    requires
        forall|j: int| 0 <= j < args.len() ==> (#[trigger] args[j]).kind is Identifier,
    ensures
        reads_all("मुद्रय"@),
        bc_read(st, ExprView { kind: ExprKindView::Call { callee: "मुद्रय"@, args }, span }).0 == st,
        bc_read(st, ExprView { kind: ExprKindView::Call { callee: "मुद्रय"@, args }, span }).1 is Ok <==> forall|j: int|
            0 <= j < args.len() ==> (#[trigger] bc_use(st, args[j].kind->Identifier_0, args[j].span)).1 is Ok,
{
    lemma_read_names(st, args, 0);
}

/// Every built-in function that the type checker knows, but for the one that
/// appends to a list, only reads its arguments: passing a variable to it never
/// moves the variable.
pub proof fn law_builtins_only_read(i: int)
    requires
        0 <= i < 23,
        builtin_at(i).0 != "सूची_संयोजय"@,
    ensures
        reads_all(builtin_at(i).0),
{
}

} // verus!
