//! The ownership and borrow checker.
//!
//! The model: scopes of bindings, each with its type, whether it is mutable,
//! where it was moved, how many shared borrows and whether a mutable borrow
//! hold it; and the borrows taken by the statement being checked, which are
//! released at its end unless the statement keeps a reference in a variable.
//! A lookup finds the innermost scope that has the name, and its last entry.
use vstd::prelude::*;
use crate::span::Span;
use crate::ast::{StmtView, ExprView, ExprKindView, BinaryOp, ItemView, FunctionView, ParamView, ProgramView, AnnView};
use crate::types::{Type, TypeView, ann_type, is_copy_spec};

mod walk;
pub mod laws;

verus! {

/// Errors of the borrow checker.
#[derive(Debug, PartialEq)]
pub enum BorrowError {
    UseAfterMove { name: String, span: Span, moved_at: Span },
    AlreadyMutablyBorrowed { name: String, span: Span },
    MutateWhileBorrowed { name: String, span: Span },
    MutBorrowWhileImmutablyBorrowed { name: String, span: Span },
    BorrowWhileMutablyBorrowed { name: String, span: Span },
    BorrowMoved { name: String, span: Span },
}

pub enum BorrowErrorView {
    UseAfterMove { name: Seq<char>, span: Span, moved_at: Span },
    AlreadyMutablyBorrowed { name: Seq<char>, span: Span },
    MutateWhileBorrowed { name: Seq<char>, span: Span },
    MutBorrowWhileImmutablyBorrowed { name: Seq<char>, span: Span },
    BorrowWhileMutablyBorrowed { name: Seq<char>, span: Span },
    BorrowMoved { name: Seq<char>, span: Span },
}

impl View for BorrowError {
    type V = BorrowErrorView;

    open spec fn view(&self) -> BorrowErrorView {
        match self {
            BorrowError::UseAfterMove { name, span, moved_at } => BorrowErrorView::UseAfterMove { name: name@, span: *span, moved_at: *moved_at },
            BorrowError::AlreadyMutablyBorrowed { name, span } => BorrowErrorView::AlreadyMutablyBorrowed { name: name@, span: *span },
            BorrowError::MutateWhileBorrowed { name, span } => BorrowErrorView::MutateWhileBorrowed { name: name@, span: *span },
            BorrowError::MutBorrowWhileImmutablyBorrowed { name, span } => BorrowErrorView::MutBorrowWhileImmutablyBorrowed { name: name@, span: *span },
            BorrowError::BorrowWhileMutablyBorrowed { name, span } => BorrowErrorView::BorrowWhileMutablyBorrowed { name: name@, span: *span },
            BorrowError::BorrowMoved { name, span } => BorrowErrorView::BorrowMoved { name: name@, span: *span },
        }
    }
}

/// What the checker knows of one variable.
#[derive(Debug)]
pub struct BindingState {
    pub ty: Type,
    pub is_mut: bool,
    pub moved_at: Option<Span>,
    pub shared_borrows: usize,
    pub is_mutably_borrowed: bool,
}

pub struct BindView {
    pub ty: TypeView,
    pub is_mut: bool,
    pub moved_at: Option<Span>,
    pub shared: usize,
    pub mut_borrowed: bool,
}

impl View for BindingState {
    type V = BindView;

    open spec fn view(&self) -> BindView {
        BindView {
            ty: self.ty@,
            is_mut: self.is_mut,
            moved_at: self.moved_at,
            shared: self.shared_borrows,
            mut_borrowed: self.is_mutably_borrowed,
        }
    }
}

/// The state of the checker.
pub struct BcView {
    pub scopes: Seq<Seq<(Seq<char>, BindView)>>,
    pub temps: Seq<(Seq<char>, bool)>,
}

pub type BcRes = (BcView, Result<(), BorrowErrorView>);

/// The index of the last entry for `k`.
pub open spec fn last_index(s: Seq<(Seq<char>, BindView)>, k: Seq<char>) -> Option<int>
    decreases s.len(),
{
    if s.len() == 0 {
        None
    } else if s.last().0 == k {
        Some(s.len() - 1)
    } else {
        last_index(s.drop_last(), k)
    }
}

/// Where the variable `k` is: the innermost scope that has it, and its last
/// entry there.
pub open spec fn locate(sc: Seq<Seq<(Seq<char>, BindView)>>, k: Seq<char>) -> Option<(int, int)>
    decreases sc.len(),
{
    if sc.len() == 0 {
        None
    } else {
        match last_index(sc.last(), k) {
            Some(j) => Some((sc.len() - 1, j)),
            None => locate(sc.drop_last(), k),
        }
    }
}

pub open spec fn binding(st: BcView, loc: (int, int)) -> BindView {
    st.scopes[loc.0][loc.1].1
}

pub open spec fn set_binding(st: BcView, loc: (int, int), b: BindView) -> BcView {
    BcView {
        scopes: st.scopes.update(loc.0, st.scopes[loc.0].update(loc.1, (st.scopes[loc.0][loc.1].0, b))),
        ..st
    }
}

pub open spec fn push_temp(st: BcView, name: Seq<char>, is_mut: bool) -> BcView {
    BcView { temps: st.temps.push((name, is_mut)), ..st }
}

pub open spec fn sat_inc(n: usize) -> usize {
    if n < usize::MAX {
        (n + 1) as usize
    } else {
        n
    }
}

pub open spec fn bc_define(st: BcView, name: Seq<char>, ty: TypeView, is_mut: bool) -> BcView {
    if st.scopes.len() > 0 {
        BcView {
            scopes: st.scopes.update(
                st.scopes.len() - 1,
                st.scopes.last().push((name, BindView { ty, is_mut, moved_at: None, shared: 0, mut_borrowed: false })),
            ),
            ..st
        }
    } else {
        st
    }
}

pub open spec fn bc_enter(st: BcView) -> BcView {
    BcView { scopes: st.scopes.push(Seq::empty()), ..st }
}

pub open spec fn bc_exit(st: BcView) -> BcView {
    if st.scopes.len() > 0 {
        BcView { scopes: st.scopes.drop_last(), ..st }
    } else {
        st
    }
}

/// A borrow `ऋण name` (or `चलऋण name` when `is_mut`) at `span`.
pub open spec fn bc_borrow_name(st: BcView, name: Seq<char>, is_mut: bool, span: Span) -> BcRes {
    match locate(st.scopes, name) {
        None => (st, Ok(())),
        Some(loc) => {
            let b = binding(st, loc);
            if b.moved_at is Some {
                (st, Err(BorrowErrorView::BorrowMoved { name, span }))
            } else if is_mut {
                if b.shared > 0 {
                    (st, Err(BorrowErrorView::MutBorrowWhileImmutablyBorrowed { name, span }))
                } else if b.mut_borrowed {
                    (st, Err(BorrowErrorView::AlreadyMutablyBorrowed { name, span }))
                } else {
                    (push_temp(set_binding(st, loc, BindView { mut_borrowed: true, ..b }), name, true), Ok(()))
                }
            } else if b.mut_borrowed {
                (st, Err(BorrowErrorView::BorrowWhileMutablyBorrowed { name, span }))
            } else {
                (push_temp(set_binding(st, loc, BindView { shared: sat_inc(b.shared), ..b }), name, false), Ok(()))
            }
        },
    }
}

/// The built-in functions that only read their arguments.
pub open spec fn reads_all(callee: Seq<char>) -> bool {
    callee == "मुद्रय"@ || callee == "सूची_सृज"@ || callee == "सूत्र_दैर्घ्यम्"@ || callee == "सूत्र_वर्ण"@
        || callee == "सूत्र_अंश"@ || callee == "सूची_दैर्घ्यम्"@ || callee == "लॉग"@ || callee == "घाताङ्क"@
        || callee == "वर्गमूल"@ || callee == "पूर्णाङ्क"@ || callee == "अंशाङ्क"@ || callee == "संचिका_पठ"@
        || callee == "संचिका_लेख"@ || callee == "संचिका_लिख"@ || callee == "संचिका_विद्यते"@
        || callee == "सूत्र_विभाजय"@ || callee == "सूची_संयोग"@ || callee == "संख्या_पाठ"@ || callee == "सूत्र_रूप"@
        || callee == "रेलू"@ || callee == "महत्तम"@ || callee == "न्यूनतम"@
}

/// A use of `name` at `span` that reads it.
pub open spec fn bc_use(st: BcView, name: Seq<char>, span: Span) -> BcRes {
    match locate(st.scopes, name) {
        Some(loc) => match binding(st, loc).moved_at {
            Some(m) => (st, Err(BorrowErrorView::UseAfterMove { name, span, moved_at: m })),
            None => (st, Ok(())),
        },
        None => (st, Ok(())),
    }
}

/// An expression that is read.
pub open spec fn bc_read(st: BcView, e: ExprView) -> BcRes
    decreases e, 2int,
{
    match e.kind {
        ExprKindView::Identifier(name) => bc_use(st, name, e.span),
        ExprKindView::Borrow { is_mut, expr: inner } => match inner.kind {
            ExprKindView::Identifier(name) => bc_borrow_name(st, name, is_mut, e.span),
            _ => bc_read(st, *inner),
        },
        ExprKindView::Binary { left, op: _, right } => {
            let (s1, r1) = bc_read(st, *left);
            match r1 {
                Err(err) => (s1, Err(err)),
                Ok(_) => bc_read(s1, *right),
            }
        },
        ExprKindView::Unary { op: _, expr: inner } => bc_read(st, *inner),
        ExprKindView::Call { callee, args } => {
            if reads_all(callee) {
                bc_read_args(st, args, 0)
            } else if callee == "सूची_संयोजय"@ {
                if args.len() > 0 {
                    let (s1, r1) = bc_read(st, args[0]);
                    match r1 {
                        Err(err) => (s1, Err(err)),
                        Ok(_) => bc_move_args(s1, args, 1),
                    }
                } else {
                    (st, Ok(()))
                }
            } else {
                bc_move_args(st, args, 0)
            }
        },
        ExprKindView::FieldAccess { target, field: _ } => bc_read(st, *target),
        ExprKindView::MethodCall { target, method: _, args } => {
            let (s1, r1) = bc_read(st, *target);
            match r1 {
                Err(err) => (s1, Err(err)),
                Ok(_) => bc_move_args(s1, args, 0),
            }
        },
        ExprKindView::StructInit { name: _, fields } => bc_move_fields(st, fields, 0),
        ExprKindView::ArrayLiteral(elems) => bc_move_args(st, elems, 0),
        ExprKindView::Index { target, index } => {
            let (s1, r1) = bc_read(st, *target);
            match r1 {
                Err(err) => (s1, Err(err)),
                Ok(_) => bc_read(s1, *index),
            }
        },
        _ => (st, Ok(())),
    }
}

/// An expression that is read, or moved when it names a variable whose type
/// is not copied.
pub open spec fn bc_read_or_move(st: BcView, e: ExprView) -> BcRes
    decreases e, 3int,
{
    match e.kind {
        ExprKindView::Identifier(name) => match locate(st.scopes, name) {
            Some(loc) => {
                let b = binding(st, loc);
                match b.moved_at {
                    Some(m) => (st, Err(BorrowErrorView::UseAfterMove { name, span: e.span, moved_at: m })),
                    None => if !is_copy_spec(b.ty) {
                        (set_binding(st, loc, BindView { moved_at: Some(e.span), ..b }), Ok(()))
                    } else {
                        (st, Ok(()))
                    },
                }
            },
            None => (st, Ok(())),
        },
        _ => bc_read(st, e),
    }
}

/// Arguments from `i` on, read.
pub open spec fn bc_read_args(st: BcView, args: Seq<ExprView>, i: int) -> BcRes
    decreases args, args.len() - i,
{
    if i < 0 || i >= args.len() {
        (st, Ok(()))
    } else {
        let (s1, r1) = bc_read(st, args[i]);
        match r1 {
            Err(err) => (s1, Err(err)),
            Ok(_) => bc_read_args(s1, args, i + 1),
        }
    }
}

/// Arguments from `i` on, read or moved.
pub open spec fn bc_move_args(st: BcView, args: Seq<ExprView>, i: int) -> BcRes
    decreases args, args.len() - i,
{
    if i < 0 || i >= args.len() {
        (st, Ok(()))
    } else {
        let (s1, r1) = bc_read_or_move(st, args[i]);
        match r1 {
            Err(err) => (s1, Err(err)),
            Ok(_) => bc_move_args(s1, args, i + 1),
        }
    }
}

/// The fields of a struct literal from `i` on, read or moved.
pub open spec fn bc_move_fields(st: BcView, fields: Seq<(Seq<char>, ExprView)>, i: int) -> BcRes
    decreases fields, fields.len() - i,
{
    if i < 0 || i >= fields.len() {
        (st, Ok(()))
    } else {
        let (s1, r1) = bc_read_or_move(st, fields[i].1);
        match r1 {
            Err(err) => (s1, Err(err)),
            Ok(_) => bc_move_fields(s1, fields, i + 1),
        }
    }
}

/// The type that the borrow checker takes an initializer to have.
pub open spec fn infer(e: ExprView) -> TypeView
    decreases e,
{
    match e.kind {
        ExprKindView::DevanagariInteger(_, _) => TypeView::Purna64,
        ExprKindView::DevanagariFloat(_) => TypeView::Ansha64,
        ExprKindView::StringLiteral(_) => TypeView::Sutra,
        ExprKindView::BoolLiteral(_) => TypeView::Dvaidha,
        ExprKindView::StructInit { name, fields: _ } => TypeView::Struct(name),
        ExprKindView::Call { callee, args: _ } => {
            if callee == "सूची_दैर्घ्यम्"@ || callee == "सूत्र_दैर्घ्यम्"@ || callee == "पूर्णाङ्क"@ {
                TypeView::Purna64
            } else if callee == "लॉग"@ || callee == "घाताङ्क"@ || callee == "वर्गमूल"@ || callee == "अंशाङ्क"@ || callee == "संख्या_पाठ"@ {
                TypeView::Ansha64
            } else if callee == "संचिका_विद्यते"@ {
                TypeView::Dvaidha
            } else if callee == "सूत्र_वर्ण"@ || callee == "सूत्र_अंश"@ || callee == "संचिका_पठ"@ || callee == "सूत्र_रूप"@ || callee == "सूची_संयोग"@ {
                TypeView::Sutra
            } else if callee == "सूची_सृज"@ || callee == "सूत्र_विभाजय"@ {
                TypeView::SoochiAny
            } else {
                TypeView::Unknown
            }
        },
        ExprKindView::Binary { left: _, op, right: _ } => match op {
            BinaryOp::Equal | BinaryOp::NotEqual | BinaryOp::Less | BinaryOp::LessEq | BinaryOp::Greater
            | BinaryOp::GreaterEq => TypeView::Dvaidha,
            _ => TypeView::Unknown,
        },
        ExprKindView::Borrow { is_mut, expr: inner } => if is_mut {
            TypeView::MutReference(Box::new(infer(*inner)))
        } else {
            TypeView::Reference(Box::new(infer(*inner)))
        },
        _ => TypeView::Unknown,
    }
}

/// The type that a declaration gives its variable.
pub open spec fn decl_type(type_ann: Option<AnnView>, init: ExprView) -> TypeView {
    match type_ann {
        Some(a) => ann_type(a),
        None => infer(init),
    }
}

/// A check that stops at the first error: first `a`, then `f` on its state.
pub open spec fn bc_assign_target(st: BcView, target: Seq<char>, span: Span) -> Option<BorrowErrorView> {
    match locate(st.scopes, target) {
        Some(loc) => {
            let b = binding(st, loc);
            match b.moved_at {
                Some(m) => Some(BorrowErrorView::UseAfterMove { name: target, span, moved_at: m }),
                None => if b.shared > 0 || b.mut_borrowed {
                    Some(BorrowErrorView::MutateWhileBorrowed { name: target, span })
                } else {
                    None
                },
            }
        },
        None => None,
    }
}

/// A statement, before its borrows are released.
pub open spec fn bc_internal(st: BcView, s: StmtView) -> BcRes
    decreases s, 1int,
{
    match s {
        StmtView::VarDecl { name, is_mut, type_ann, init, span: _ } => {
            let (s1, r1) = bc_read_or_move(st, init);
            match r1 {
                Err(err) => (s1, Err(err)),
                Ok(_) => (bc_define(s1, name, decl_type(type_ann, init), is_mut), Ok(())),
            }
        },
        StmtView::Assignment { target, value, span } => match bc_assign_target(st, target, span) {
            Some(err) => (st, Err(err)),
            None => bc_read_or_move(st, value),
        },
        StmtView::FieldAssignment { target, field: _, value, span } => match bc_assign_target(st, target, span) {
            Some(err) => (st, Err(err)),
            None => bc_read_or_move(st, value),
        },
        StmtView::If { condition, then_branch, else_branch, span: _ } => {
            let (s1, r1) = bc_read(st, condition);
            match r1 {
                Err(err) => (s1, Err(err)),
                Ok(_) => {
                    let (s2, r2) = bc_block(bc_enter(s1), then_branch, 0);
                    match r2 {
                        Err(err) => (s2, Err(err)),
                        Ok(_) => match else_branch {
                            None => (bc_exit(s2), Ok(())),
                            Some(els) => {
                                let (s3, r3) = bc_block(bc_enter(bc_exit(s2)), els, 0);
                                match r3 {
                                    Err(err) => (s3, Err(err)),
                                    Ok(_) => (bc_exit(s3), Ok(())),
                                }
                            },
                        },
                    }
                },
            }
        },
        StmtView::While { condition, body, span: _ } => {
            let (s1, r1) = bc_read(st, condition);
            match r1 {
                Err(err) => (s1, Err(err)),
                Ok(_) => {
                    let (s2, r2) = bc_block(bc_enter(s1), body, 0);
                    match r2 {
                        Err(err) => (s2, Err(err)),
                        Ok(_) => (bc_exit(s2), Ok(())),
                    }
                },
            }
        },
        StmtView::Return { value, span: _ } => match value {
            Some(v) => bc_read_or_move(st, v),
            None => (st, Ok(())),
        },
        StmtView::IndexAssignment { target, index, value, span: _ } => {
            let (s1, r1) = bc_read(st, *target);
            match r1 {
                Err(err) => (s1, Err(err)),
                Ok(_) => {
                    let (s2, r2) = bc_read(s1, *index);
                    match r2 {
                        Err(err) => (s2, Err(err)),
                        Ok(_) => bc_read_or_move(s2, value),
                    }
                },
            }
        },
        StmtView::Expr(e) => bc_read(st, e),
    }
}

/// The borrows `temps` from `i` on, given back.
pub open spec fn release(st: BcView, temps: Seq<(Seq<char>, bool)>, i: int) -> BcView
    decreases temps.len() - i,
{
    if i < 0 || i >= temps.len() {
        st
    } else {
        let (name, is_mut) = temps[i];
        let st1 = match locate(st.scopes, name) {
            Some(loc) => {
                let b = binding(st, loc);
                if is_mut {
                    set_binding(st, loc, BindView { mut_borrowed: false, ..b })
                } else if b.shared > 0 {
                    set_binding(st, loc, BindView { shared: (b.shared - 1) as usize, ..b })
                } else {
                    st
                }
            },
            None => st,
        };
        release(st1, temps, i + 1)
    }
}

/// Whether a statement keeps a reference in a variable (its borrows stay).
pub open spec fn persists_borrow(s: StmtView) -> bool {
    match s {
        StmtView::VarDecl { name: _, is_mut: _, type_ann, init, span: _ } => decl_type(type_ann, init) is Reference
            || decl_type(type_ann, init) is MutReference,
        _ => false,
    }
}

/// A statement: its check, then its borrows released unless it keeps them.
pub open spec fn bc_stmt(st: BcView, s: StmtView) -> BcRes
    decreases s, 2int,
{
    let (s1, r) = bc_internal(st, s);
    if !persists_borrow(s) {
        (release(BcView { temps: Seq::empty(), ..s1 }, s1.temps, 0), r)
    } else {
        (BcView { temps: Seq::empty(), ..s1 }, r)
    }
}

/// Statements from `i` on, stopping at the first error.
pub open spec fn bc_block(st: BcView, stmts: Seq<StmtView>, i: int) -> BcRes
    decreases stmts, stmts.len() - i,
{
    if i < 0 || i >= stmts.len() {
        (st, Ok(()))
    } else {
        let (s1, r) = bc_stmt(st, stmts[i]);
        match r {
            Err(err) => (s1, Err(err)),
            Ok(_) => bc_block(s1, stmts, i + 1),
        }
    }
}

/// The parameters of a function from `j` on, defined as immutable variables.
pub open spec fn bc_params(st: BcView, params: Seq<ParamView>, j: int) -> BcView
    decreases params.len() - j,
{
    if j < 0 || j >= params.len() {
        st
    } else {
        bc_params(bc_define(st, params[j].name, ann_type(params[j].type_ann), false), params, j + 1)
    }
}

/// A function (or method): its body in a new scope with its parameters.
pub open spec fn bc_function(st: BcView, f: FunctionView) -> BcRes {
    let (s1, r) = bc_block(bc_params(bc_enter(st), f.params, 0), f.body, 0);
    match r {
        Err(err) => (s1, Err(err)),
        Ok(_) => (bc_exit(s1), Ok(())),
    }
}

/// Functions from `j` on.
pub open spec fn bc_functions(st: BcView, fs: Seq<FunctionView>, j: int) -> BcRes
    decreases fs.len() - j,
{
    if j < 0 || j >= fs.len() {
        (st, Ok(()))
    } else {
        let (s1, r) = bc_function(st, fs[j]);
        match r {
            Err(err) => (s1, Err(err)),
            Ok(_) => bc_functions(s1, fs, j + 1),
        }
    }
}

/// The items of a program from `i` on.
pub open spec fn bc_items(st: BcView, items: Seq<ItemView>, i: int) -> BcRes
    decreases items.len() - i,
{
    if i < 0 || i >= items.len() {
        (st, Ok(()))
    } else {
        let (s1, r): BcRes = match items[i] {
            ItemView::Function(f) => bc_function(st, f),
            ItemView::Impl(b) => bc_functions(st, b.methods, 0),
            ItemView::Statement(s) => bc_stmt(st, s),
            _ => (st, Ok(())),
        };
        match r {
            Err(err) => (s1, Err(err)),
            Ok(_) => bc_items(s1, items, i + 1),
        }
    }
}

pub open spec fn bc_program(st: BcView, p: ProgramView) -> BcRes {
    bc_items(st, p.items, 0)
}

/// A fresh checker: one empty scope, no borrows.
pub open spec fn bc_new() -> BcView {
    BcView { scopes: seq![Seq::empty()], temps: Seq::empty() }
}

/// Where `locate` finds a variable, it has that name.
pub proof fn lemma_locate(sc: Seq<Seq<(Seq<char>, BindView)>>, k: Seq<char>)
    ensures
        locate(sc, k) matches Some(loc) ==> 0 <= loc.0 < sc.len() && 0 <= loc.1 < sc[loc.0].len() && sc[loc.0][loc.1].0 == k,
    decreases sc.len(),
{
    if sc.len() > 0 {
        lemma_last_index(sc.last(), k);
        lemma_locate(sc.drop_last(), k);
    }
}

proof fn lemma_last_index(s: Seq<(Seq<char>, BindView)>, k: Seq<char>)
    ensures
        last_index(s, k) matches Some(j) ==> 0 <= j < s.len() && s[j].0 == k,
    decreases s.len(),
{
    if s.len() > 0 {
        lemma_last_index(s.drop_last(), k);
    }
}

// ---------------------------------------------------------------------------
// The checker.
// ---------------------------------------------------------------------------

/// The borrow checker: scopes of bindings, and the borrows that the statement
/// being checked has taken.
pub struct BorrowChecker {
    scopes: Vec<Vec<(String, BindingState)>>,
    temporary_borrows: Vec<(String, bool)>,
}

pub open spec fn bscope_view(sc: Vec<(String, BindingState)>) -> Seq<(Seq<char>, BindView)> {
    sc@.map_values(|p: (String, BindingState)| (p.0@, p.1@))
}

impl View for BorrowChecker {
    type V = BcView;

    closed spec fn view(&self) -> BcView {
        BcView {
            scopes: self.scopes@.map_values(|sc: Vec<(String, BindingState)>| bscope_view(sc)),
            temps: self.temporary_borrows@.map_values(|p: (String, bool)| (p.0@, p.1)),
        }
    }
}

impl BindingState {
    pub fn duplicate(&self) -> (r: BindingState)
        ensures
            r@ == self@,
    {
        BindingState {
            ty: self.ty.duplicate(),
            is_mut: self.is_mut,
            moved_at: self.moved_at,
            shared_borrows: self.shared_borrows,
            is_mutably_borrowed: self.is_mutably_borrowed,
        }
    }
}

impl BorrowChecker {
    /// A checker with one empty scope and no borrows.
    pub fn new() -> (r: BorrowChecker)
        ensures
            r@ == bc_new(),
    {
        let mut scopes: Vec<Vec<(String, BindingState)>> = Vec::new();
        let first: Vec<(String, BindingState)> = Vec::new();
        scopes.push(first);
        let r = BorrowChecker { scopes, temporary_borrows: Vec::new() };
        proof {
            assert(bscope_view(first) =~= Seq::<(Seq<char>, BindView)>::empty());
            assert(r@.scopes =~= seq![Seq::<(Seq<char>, BindView)>::empty()]);
            assert(r@.temps =~= Seq::<(Seq<char>, bool)>::empty());
        }
        r
    }

    /// Opens a new innermost scope.
    pub fn enter_scope(&mut self)
        ensures
            final(self)@ == bc_enter(old(self)@),
    {
        let fresh: Vec<(String, BindingState)> = Vec::new();
        self.scopes.push(fresh);
        proof {
            assert(bscope_view(fresh) =~= Seq::<(Seq<char>, BindView)>::empty());
            assert(self@.scopes =~= old(self)@.scopes.push(Seq::empty()));
        }
    }

    /// Closes the innermost scope, if there is one.
    pub fn exit_scope(&mut self)
        ensures
            final(self)@ == bc_exit(old(self)@),
    {
        if self.scopes.len() > 0 {
            self.scopes.pop();
            proof {
                assert(self@.scopes =~= old(self)@.scopes.drop_last());
            }
        }
    }

    /// Defines a variable, not moved and not borrowed, in the innermost scope.
    pub fn define_var(&mut self, name: String, ty: Type, is_mut: bool)
        ensures
            final(self)@ == bc_define(old(self)@, name@, ty@, is_mut),
    {
        let ghost old_view = self@;
        match self.scopes.pop() {
            Some(mut scope) => {
                let ghost before = scope@;
                let b = BindingState { ty, is_mut, moved_at: None, shared_borrows: 0, is_mutably_borrowed: false };
                scope.push((name, b));
                self.scopes.push(scope);
                proof {
                    assert(bscope_view(scope) =~= before.map_values(|p: (String, BindingState)| (p.0@, p.1@)).push((name@, b@)));
                    assert(self@.scopes =~= old_view.scopes.update(old_view.scopes.len() - 1, old_view.scopes.last().push((name@, b@))));
                }
            },
            None => {},
        }
    }

    /// Where the variable `name` is: the innermost scope that has it and its
    /// last entry there.
    pub fn locate_var(&self, name: &String) -> (r: Option<(usize, usize)>)
        ensures
            match r {
                Some(loc) => locate(self@.scopes, name@) == Some((loc.0 as int, loc.1 as int)),
                None => locate(self@.scopes, name@) is None,
            },
    {
        let ghost sv = self@.scopes;
        let mut si = self.scopes.len();
        proof {
            assert(sv.subrange(0, si as int) =~= sv);
        }
        while si > 0
            invariant
                si <= self.scopes@.len(),
                sv == self@.scopes,
                locate(sv, name@) == locate(sv.subrange(0, si as int), name@),
            decreases si,
        {
            let ghost sub = sv.subrange(0, si as int);
            proof {
                assert(sub.drop_last() =~= sv.subrange(0, si - 1));
            }
            si = si - 1;
            let scope = &self.scopes[si];
            let ghost scv = sv[si as int];
            let ghost k = si as int;
            let mut i = scope.len();
            proof {
                assert(scv.subrange(0, i as int) =~= scv);
            }
            while i > 0
                invariant
                    i <= scope@.len(),
                    sv == self@.scopes,
                    scv == bscope_view(*scope),
                    0 <= k,
                    k == si as int,
                    sub.len() == k + 1,
                    sub.last() == scv,
                    locate(sv, name@) == locate(sub, name@),
                    last_index(scv, name@) == last_index(scv.subrange(0, i as int), name@),
                decreases i,
            {
                let ghost part = scv.subrange(0, i as int);
                proof {
                    assert(part.drop_last() =~= scv.subrange(0, i - 1));
                }
                i = i - 1;
                if scope[i].0 == *name {
                    proof {
                        assert(part.last() == scv[i as int]);
                        assert(part.last().0 == name@);
                        assert(last_index(part, name@) == Some(i as int));
                        assert(last_index(scv, name@) == Some(i as int));
                        assert(sub.len() > 0);
                        assert(locate(sub, name@) == Some((sub.len() - 1, i as int)));
                        assert(k == si);
                    }
                    return Some((si, i));
                }
            }
        }
        None
    }

    /// The binding at a place that `locate_var` gave.
    fn binding_at(&self, si: usize, ei: usize) -> (r: BindingState)
        requires
            si < self@.scopes.len(),
            ei < self@.scopes[si as int].len(),
        ensures
            r@ == binding(self@, (si as int, ei as int)),
    {
        self.scopes[si][ei].1.duplicate()
    }

    /// Replaces the binding at a place that `locate_var` gave.
    fn set_binding_at(&mut self, si: usize, ei: usize, b: BindingState)
        requires
            si < old(self)@.scopes.len(),
            ei < old(self)@.scopes[si as int].len(),
        ensures
            final(self)@ == set_binding(old(self)@, (si as int, ei as int), b@),
    {
        let ghost old_view = self@;
        let ghost bv = b@;
        self.scopes[si][ei].1 = b;
        proof {
            assert(bscope_view(self.scopes@[si as int]) =~= old_view.scopes[si as int].update(ei as int, (old_view.scopes[si as int][ei as int].0, bv)));
            assert(self@.scopes =~= old_view.scopes.update(si as int, old_view.scopes[si as int].update(ei as int, (old_view.scopes[si as int][ei as int].0, bv))));
        }
    }

    /// Records a borrow of `name` that the current statement took.
    fn push_temp(&mut self, name: String, is_mut: bool)
        ensures
            final(self)@ == push_temp(old(self)@, name@, is_mut),
    {
        let ghost old_view = self@;
        self.temporary_borrows.push((name, is_mut));
        proof {
            assert(self@.temps =~= old_view.temps.push((name@, is_mut)));
            assert(self@.scopes == old_view.scopes);
        }
    }

    /// The borrows of the current statement, taken out of the checker.
    fn take_temps(&mut self) -> (r: Vec<(String, bool)>)
        ensures
            r@.map_values(|p: (String, bool)| (p.0@, p.1)) == old(self)@.temps,
            final(self)@ == (BcView { temps: Seq::empty(), ..old(self)@ }),
    {
        let ghost old_view = self@;
        let mut r: Vec<(String, bool)> = Vec::new();
        std::mem::swap(&mut r, &mut self.temporary_borrows);
        proof {
            assert(self@.temps =~= Seq::<(Seq<char>, bool)>::empty());
            assert(self@.scopes == old_view.scopes);
        }
        r
    }
}

} // verus!
