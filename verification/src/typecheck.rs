//! The type checker.
//!
//! The model: a checker state (functions, structs, methods, the scopes of
//! variables, the return type of the function being checked) and functions
//! that give the type of an expression in a state, and the state after a
//! statement with its result. Tables are lists of entries in the order they
//! were made; a lookup finds the last entry for a key.
use vstd::prelude::*;
use crate::span::Span;
use crate::ast::{Program, TopLevelItem, FunctionDecl, Statement, Expr, ExprKind, BinaryOp, UnaryOp, ProgramView, ItemView, StructView, FieldView, FunctionView, ParamView, AnnView, StmtView, ExprView, ExprKindView, expr_view, stmt_view, function_view, item_view, lemma_exprs_view, lemma_stmts_view, lemma_field_inits_view, exprs_view, stmts_view, field_inits_view};
use crate::types::{Type, TypeView, ann_type, type_text};
use crate::text::{push_str, str_is};

mod exprs;
mod stmts;
pub mod laws;

verus! {

/// Errors of the type checker.
#[derive(Debug, PartialEq)]
pub enum TypeError {
    Mismatch { expected: String, found: String, span: Span },
    UndefinedVar { name: String, span: Span },
    UndefinedFunc { name: String, span: Span },
    ArgCountMismatch { expected: usize, found: usize, span: Span },
    CannotMutateImmutable { name: String, span: Span },
    UndefinedStruct { name: String, span: Span },
    UndefinedField { struct_name: String, field: String, span: Span },
    UndefinedMethod { struct_name: String, method: String, span: Span },
    MissingStructField { struct_name: String, field: String, span: Span },
}

pub enum TypeErrorView {
    Mismatch { expected: Seq<char>, found: Seq<char>, span: Span },
    UndefinedVar { name: Seq<char>, span: Span },
    UndefinedFunc { name: Seq<char>, span: Span },
    ArgCountMismatch { expected: usize, found: usize, span: Span },
    CannotMutateImmutable { name: Seq<char>, span: Span },
    UndefinedStruct { name: Seq<char>, span: Span },
    UndefinedField { struct_name: Seq<char>, field: Seq<char>, span: Span },
    UndefinedMethod { struct_name: Seq<char>, method: Seq<char>, span: Span },
    MissingStructField { struct_name: Seq<char>, field: Seq<char>, span: Span },
}

impl View for TypeError {
    type V = TypeErrorView;

    open spec fn view(&self) -> TypeErrorView {
        match self {
            TypeError::Mismatch { expected, found, span } => TypeErrorView::Mismatch { expected: expected@, found: found@, span: *span },
            TypeError::UndefinedVar { name, span } => TypeErrorView::UndefinedVar { name: name@, span: *span },
            TypeError::UndefinedFunc { name, span } => TypeErrorView::UndefinedFunc { name: name@, span: *span },
            TypeError::ArgCountMismatch { expected, found, span } => TypeErrorView::ArgCountMismatch { expected: *expected, found: *found, span: *span },
            TypeError::CannotMutateImmutable { name, span } => TypeErrorView::CannotMutateImmutable { name: name@, span: *span },
            TypeError::UndefinedStruct { name, span } => TypeErrorView::UndefinedStruct { name: name@, span: *span },
            TypeError::UndefinedField { struct_name, field, span } => TypeErrorView::UndefinedField { struct_name: struct_name@, field: field@, span: *span },
            TypeError::UndefinedMethod { struct_name, method, span } => TypeErrorView::UndefinedMethod { struct_name: struct_name@, method: method@, span: *span },
            TypeError::MissingStructField { struct_name, field, span } => TypeErrorView::MissingStructField { struct_name: struct_name@, field: field@, span: *span },
        }
    }
}

/// A variable in scope.
#[derive(Debug)]
pub struct VarInfo {
    pub ty: Type,
    pub is_mut: bool,
    pub span: Span,
}

/// A declared struct: its fields with their types, and their names in order.
#[derive(Debug)]
pub struct StructInfo {
    pub name: String,
    pub fields: Vec<(String, Type)>,
    pub field_order: Vec<String>,
    pub span: Span,
}

/// The parameter types and the return type of a function or method.
#[derive(Debug)]
pub struct FuncSignature {
    pub params: Vec<Type>,
    pub return_type: Type,
    pub span: Span,
}

pub struct VarView {
    pub ty: TypeView,
    pub is_mut: bool,
    pub span: Span,
}

pub struct StructInfoView {
    pub name: Seq<char>,
    pub fields: Seq<(Seq<char>, TypeView)>,
    pub field_order: Seq<Seq<char>>,
    pub span: Span,
}

pub struct SigView {
    pub params: Seq<TypeView>,
    pub ret: TypeView,
    pub span: Span,
}

pub open spec fn types_view(s: Seq<Type>) -> Seq<TypeView> {
    s.map_values(|t: Type| t@)
}

impl View for VarInfo {
    type V = VarView;

    open spec fn view(&self) -> VarView {
        VarView { ty: self.ty@, is_mut: self.is_mut, span: self.span }
    }
}

impl View for StructInfo {
    type V = StructInfoView;

    open spec fn view(&self) -> StructInfoView {
        StructInfoView {
            name: self.name@,
            fields: self.fields@.map_values(|p: (String, Type)| (p.0@, p.1@)),
            field_order: self.field_order@.map_values(|s: String| s@),
            span: self.span,
        }
    }
}

impl View for FuncSignature {
    type V = SigView;

    open spec fn view(&self) -> SigView {
        SigView { params: types_view(self.params@), ret: self.return_type@, span: self.span }
    }
}

/// The state of the checker.
pub struct TcView {
    pub functions: Seq<(Seq<char>, SigView)>,
    pub structs: Seq<(Seq<char>, StructInfoView)>,
    pub methods: Seq<((Seq<char>, Seq<char>), SigView)>,
    pub scopes: Seq<Seq<(Seq<char>, VarView)>>,
    pub ret: TypeView,
}

/// The last entry for `k` in a list of entries.
pub open spec fn find_last<K, V>(s: Seq<(K, V)>, k: K) -> Option<V>
    decreases s.len(),
{
    if s.len() == 0 {
        None
    } else if s.last().0 == k {
        Some(s.last().1)
    } else {
        find_last(s.drop_last(), k)
    }
}

/// The variable `k` as the innermost scope that has it sees it.
pub open spec fn lookup_scopes(sc: Seq<Seq<(Seq<char>, VarView)>>, k: Seq<char>) -> Option<VarView>
    decreases sc.len(),
{
    if sc.len() == 0 {
        None
    } else {
        match find_last(sc.last(), k) {
            Some(v) => Some(v),
            None => lookup_scopes(sc.drop_last(), k),
        }
    }
}

/// Whether a value of type `a` may stand where `e` is expected.
pub open spec fn compatible(e: TypeView, a: TypeView) -> bool {
    e == a || e == TypeView::Unknown || a == TypeView::Unknown
        || (e == TypeView::SoochiAny && a is Soochi) || (e is Soochi && a == TypeView::SoochiAny)
        || (e matches TypeView::Reference(x) && *x == a) || (a matches TypeView::Reference(x) && *x == e)
}

pub open spec fn mismatch(expected: Seq<char>, found: Seq<char>, span: Span) -> TypeErrorView {
    TypeErrorView::Mismatch { expected, found, span }
}

/// The name of an operator as the messages write it.
pub open spec fn op_text(op: BinaryOp) -> Seq<char> {
    match op {
        BinaryOp::Add => "Add"@,
        BinaryOp::Sub => "Sub"@,
        BinaryOp::Mul => "Mul"@,
        BinaryOp::Div => "Div"@,
        BinaryOp::Mod => "Mod"@,
        BinaryOp::Equal => "Equal"@,
        BinaryOp::NotEqual => "NotEqual"@,
        BinaryOp::Less => "Less"@,
        BinaryOp::LessEq => "LessEq"@,
        BinaryOp::Greater => "Greater"@,
        BinaryOp::GreaterEq => "GreaterEq"@,
    }
}

pub open spec fn numeric(t: TypeView) -> bool {
    t == TypeView::Purna64 || t == TypeView::Ansha64
}

/// The result of a binary operator on operands of types `l` and `r`.
pub open spec fn binary_type(op: BinaryOp, l: TypeView, r: TypeView, span: Span) -> Result<TypeView, TypeErrorView> {
    match op {
        BinaryOp::Add | BinaryOp::Sub | BinaryOp::Mul | BinaryOp::Div | BinaryOp::Mod => {
            if (l == r && numeric(l)) || l == TypeView::Unknown || r == TypeView::Unknown {
                Ok(if l != TypeView::Unknown { l } else { r })
            } else if op == BinaryOp::Add && (l == TypeView::Sutra || r == TypeView::Sutra) {
                Ok(TypeView::Sutra)
            } else {
                Err(mismatch(
                    "समाना संख्या (Compatible numbers), किन्तु '"@ + type_text(l) + "' एवं '"@ + type_text(r) + "'"@,
                    type_text(l) + " "@ + op_text(op),
                    span,
                ))
            }
        },
        BinaryOp::Equal | BinaryOp::NotEqual => {
            if compatible(l, r) {
                Ok(TypeView::Dvaidha)
            } else {
                Err(mismatch(
                    "समानप्रकारौ (Matching types), किन्तु '"@ + type_text(l) + "' एवं '"@ + type_text(r) + "'"@,
                    type_text(l) + " == "@ + type_text(r),
                    span,
                ))
            }
        },
        _ => {
            if (l == r && numeric(l)) || l == TypeView::Unknown || r == TypeView::Unknown {
                Ok(TypeView::Dvaidha)
            } else {
                Err(mismatch("तुलनीया संख्या (Comparable numbers)"@, type_text(l) + " एवं "@ + type_text(r), span))
            }
        },
    }
}

/// The struct that a value of type `t` is (directly or behind a reference).
pub open spec fn struct_of(t: TypeView) -> Option<Seq<char>> {
    match t {
        TypeView::Struct(n) => Some(n),
        TypeView::Reference(inner) => match *inner {
            TypeView::Struct(n) => Some(n),
            _ => None,
        },
        TypeView::MutReference(inner) => match *inner {
            TypeView::Struct(n) => Some(n),
            _ => None,
        },
        _ => None,
    }
}

/// The struct that a variable of type `t` lets one assign fields of.
pub open spec fn assignable_struct_of(t: TypeView) -> Option<Seq<char>> {
    match t {
        TypeView::Struct(n) => Some(n),
        TypeView::MutReference(inner) => match *inner {
            TypeView::Struct(n) => Some(n),
            _ => None,
        },
        _ => None,
    }
}

/// Whether `name` is among the names of `fields`.
pub open spec fn names_field(fields: Seq<(Seq<char>, ExprView)>, name: Seq<char>) -> bool {
    exists|i: int| 0 <= i < fields.len() && #[trigger] fields[i].0 == name
}

/// The first of `order` from `j` on that `fields` does not give.
pub open spec fn first_missing(order: Seq<Seq<char>>, fields: Seq<(Seq<char>, ExprView)>, j: int) -> Option<Seq<char>>
    decreases order.len() - j,
{
    if j < 0 || j >= order.len() {
        None
    } else if !names_field(fields, order[j]) {
        Some(order[j])
    } else {
        first_missing(order, fields, j + 1)
    }
}

pub open spec fn mutable_name_error(st: TcView, target: ExprView, span: Span) -> Option<TypeErrorView> {
    match target.kind {
        ExprKindView::Identifier(name) => match lookup_scopes(st.scopes, name) {
            Some(info) => if !info.is_mut {
                Some(TypeErrorView::CannotMutateImmutable { name, span })
            } else {
                None
            },
            None => None,
        },
        _ => None,
    }
}

/// The type of an expression in state `st`.
pub open spec fn tc_expr(st: TcView, e: ExprView) -> Result<TypeView, TypeErrorView>
    decreases e, 0int,
{
    match e.kind {
        ExprKindView::DevanagariInteger(_, _) => Ok(TypeView::Purna64),
        ExprKindView::DevanagariFloat(_) => Ok(TypeView::Ansha64),
        ExprKindView::StringLiteral(_) => Ok(TypeView::Sutra),
        ExprKindView::BoolLiteral(_) => Ok(TypeView::Dvaidha),
        ExprKindView::ArrayLiteral(elems) => {
            if elems.len() == 0 {
                Ok(TypeView::SoochiAny)
            } else {
                match tc_expr(st, elems[0]) {
                    Err(err) => Err(err),
                    Ok(first) => match tc_elems(st, first, elems, 1) {
                        Err(err) => Err(err),
                        Ok(_) => Ok(TypeView::Soochi(Box::new(first))),
                    },
                }
            }
        },
        ExprKindView::Index { target, index } => match tc_expr(st, *target) {
            Err(err) => Err(err),
            Ok(target_ty) => match tc_expr(st, *index) {
                Err(err) => Err(err),
                Ok(idx_ty) => if idx_ty != TypeView::Purna64 && idx_ty != TypeView::Unknown {
                    Err(mismatch("पूर्ण६४ (Integer index)"@, type_text(idx_ty), index.span))
                } else {
                    match target_ty {
                        TypeView::Soochi(elem) => Ok(*elem),
                        TypeView::SoochiAny => Ok(TypeView::Unknown),
                        TypeView::Sutra => Ok(TypeView::Sutra),
                        other => Err(mismatch("सूची वा सूत्र (List or String)"@, type_text(other), target.span)),
                    }
                },
            },
        },
        ExprKindView::Identifier(name) => match lookup_scopes(st.scopes, name) {
            Some(info) => Ok(info.ty),
            None => Err(TypeErrorView::UndefinedVar { name, span: e.span }),
        },
        ExprKindView::Unary { op, expr: inner } => match tc_expr(st, *inner) {
            Err(err) => Err(err),
            Ok(t) => match op {
                UnaryOp::Neg => if numeric(t) {
                    Ok(t)
                } else {
                    Err(mismatch("संख्या (Number)"@, type_text(t), e.span))
                },
                UnaryOp::Not => if t == TypeView::Dvaidha {
                    Ok(TypeView::Dvaidha)
                } else {
                    Err(mismatch("द्वैध (Boolean)"@, type_text(t), e.span))
                },
            },
        },
        ExprKindView::Borrow { is_mut, expr: inner } => match tc_expr(st, *inner) {
            Err(err) => Err(err),
            Ok(t) => if is_mut {
                match mutable_name_error(st, *inner, e.span) {
                    Some(err) => Err(err),
                    None => Ok(TypeView::MutReference(Box::new(t))),
                }
            } else {
                Ok(TypeView::Reference(Box::new(t)))
            },
        },
        ExprKindView::Binary { left, op, right } => match tc_expr(st, *left) {
            Err(err) => Err(err),
            Ok(l) => match tc_expr(st, *right) {
                Err(err) => Err(err),
                Ok(r) => binary_type(op, l, r, e.span),
            },
        },
        ExprKindView::Call { callee, args } => {
            if callee == "मुद्रय"@ {
                match tc_any_args(st, args, 0) {
                    Err(err) => Err(err),
                    Ok(_) => Ok(TypeView::Rikta),
                }
            } else {
                match find_last(st.functions, callee) {
                    None => Err(TypeErrorView::UndefinedFunc { name: callee, span: e.span }),
                    Some(sig) => if sig.params.len() != args.len() {
                        Err(TypeErrorView::ArgCountMismatch {
                            expected: sig.params.len() as usize,
                            found: args.len() as usize,
                            span: e.span,
                        })
                    } else {
                        match tc_call_args(st, sig.params, args, 0) {
                            Err(err) => Err(err),
                            Ok(_) => Ok(sig.ret),
                        }
                    },
                }
            }
        },
        ExprKindView::FieldAccess { target, field } => match tc_expr(st, *target) {
            Err(err) => Err(err),
            Ok(t) => match struct_of(t) {
                None => Err(mismatch("संरचना (Struct)"@, type_text(t), e.span)),
                Some(sname) => match find_last(st.structs, sname) {
                    None => Err(TypeErrorView::UndefinedStruct { name: sname, span: e.span }),
                    Some(info) => match find_last(info.fields, field) {
                        None => Err(TypeErrorView::UndefinedField { struct_name: sname, field, span: e.span }),
                        Some(ft) => Ok(ft),
                    },
                },
            },
        },
        ExprKindView::MethodCall { target, method, args } => match tc_expr(st, *target) {
            Err(err) => Err(err),
            Ok(t) => match struct_of(t) {
                None => Err(mismatch("संरचना (Struct)"@, type_text(t), e.span)),
                Some(sname) => match find_last(st.methods, (sname, method)) {
                    None => Err(TypeErrorView::UndefinedMethod { struct_name: sname, method, span: e.span }),
                    Some(sig) => if sig.params.len() == 0 {
                        Err(TypeErrorView::ArgCountMismatch { expected: 1, found: 0, span: e.span })
                    } else {
                        match (if sig.params[0] is MutReference { mutable_name_error(st, *target, target.span) } else { None }) {
                            Some(err) => Err(err),
                            None => if sig.params.len() - 1 != args.len() {
                                Err(TypeErrorView::ArgCountMismatch {
                                    expected: (sig.params.len() - 1) as usize,
                                    found: args.len() as usize,
                                    span: e.span,
                                })
                            } else {
                                match tc_method_args(st, sig.params, args, 0) {
                                    Err(err) => Err(err),
                                    Ok(_) => Ok(sig.ret),
                                }
                            },
                        }
                    },
                },
            },
        },
        ExprKindView::StructInit { name, fields } => match find_last(st.structs, name) {
            None => Err(TypeErrorView::UndefinedStruct { name, span: e.span }),
            Some(info) => match tc_init_fields(st, name, info, fields, 0) {
                Err(err) => Err(err),
                Ok(_) => match first_missing(info.field_order, fields, 0) {
                    Some(f) => Err(TypeErrorView::MissingStructField { struct_name: name, field: f, span: e.span }),
                    None => Ok(TypeView::Struct(name)),
                },
            },
        },
    }
}

/// The elements of a list literal from `i` on, each against the type of the first.
pub open spec fn tc_elems(st: TcView, first: TypeView, elems: Seq<ExprView>, i: int) -> Result<(), TypeErrorView>
    decreases elems, elems.len() - i,
{
    if i < 0 || i >= elems.len() {
        Ok(())
    } else {
        match tc_expr(st, elems[i]) {
            Err(err) => Err(err),
            Ok(t) => if !compatible(first, t) {
                Err(mismatch(type_text(first), type_text(t), elems[i].span))
            } else {
                tc_elems(st, first, elems, i + 1)
            },
        }
    }
}

/// Arguments from `i` on, of any type.
pub open spec fn tc_any_args(st: TcView, args: Seq<ExprView>, i: int) -> Result<(), TypeErrorView>
    decreases args, args.len() - i,
{
    if i < 0 || i >= args.len() {
        Ok(())
    } else {
        match tc_expr(st, args[i]) {
            Err(err) => Err(err),
            Ok(_) => tc_any_args(st, args, i + 1),
        }
    }
}

/// Arguments of a function call from `i` on, against the parameter types.
pub open spec fn tc_call_args(st: TcView, params: Seq<TypeView>, args: Seq<ExprView>, i: int) -> Result<(), TypeErrorView>
    decreases args, args.len() - i,
{
    if i < 0 || i >= args.len() {
        Ok(())
    } else {
        match tc_expr(st, args[i]) {
            Err(err) => Err(err),
            Ok(t) => if !compatible(params[i], t) {
                Err(mismatch(type_text(params[i]), type_text(t), args[i].span))
            } else {
                tc_call_args(st, params, args, i + 1)
            },
        }
    }
}

/// Arguments of a method call from `i` on, against the parameter types after
/// the receiver's.
pub open spec fn tc_method_args(st: TcView, params: Seq<TypeView>, args: Seq<ExprView>, i: int) -> Result<(), TypeErrorView>
    decreases args, args.len() - i,
{
    if i < 0 || i >= args.len() {
        Ok(())
    } else {
        match tc_expr(st, args[i]) {
            Err(err) => Err(err),
            Ok(t) => if params[i + 1] != t && t != TypeView::Unknown {
                Err(mismatch(type_text(params[i + 1]), type_text(t), args[i].span))
            } else {
                tc_method_args(st, params, args, i + 1)
            },
        }
    }
}

/// The fields of a struct literal from `i` on, against the struct's fields.
pub open spec fn tc_init_fields(st: TcView, name: Seq<char>, info: StructInfoView, fields: Seq<(Seq<char>, ExprView)>, i: int) -> Result<(), TypeErrorView>
    decreases fields, fields.len() - i,
{
    if i < 0 || i >= fields.len() {
        Ok(())
    } else {
        match tc_expr(st, fields[i].1) {
            Err(err) => Err(err),
            Ok(t) => match find_last(info.fields, fields[i].0) {
                None => Err(TypeErrorView::UndefinedField { struct_name: name, field: fields[i].0, span: fields[i].1.span }),
                Some(ft) => if !compatible(ft, t) {
                    Err(mismatch(type_text(ft), type_text(t), fields[i].1.span))
                } else {
                    tc_init_fields(st, name, info, fields, i + 1)
                },
            },
        }
    }
}

// --- Statements ------------------------------------------------------------

/// `st` with a new variable in its innermost scope.
pub open spec fn define(st: TcView, name: Seq<char>, ty: TypeView, is_mut: bool, span: Span) -> TcView {
    if st.scopes.len() > 0 {
        TcView {
            scopes: st.scopes.update(st.scopes.len() - 1, st.scopes.last().push((name, VarView { ty, is_mut, span }))),
            ..st
        }
    } else {
        st
    }
}

pub open spec fn enter(st: TcView) -> TcView {
    TcView { scopes: st.scopes.push(Seq::empty()), ..st }
}

pub open spec fn exit(st: TcView) -> TcView {
    if st.scopes.len() > 0 {
        TcView { scopes: st.scopes.drop_last(), ..st }
    } else {
        st
    }
}

pub open spec fn cond_ok(t: TypeView) -> bool {
    t == TypeView::Dvaidha || t == TypeView::Purna64 || t == TypeView::Unknown
}

/// A statement in state `st`: the state after it, and its result.
pub open spec fn tc_stmt(st: TcView, s: StmtView) -> (TcView, Result<(), TypeErrorView>)
    decreases s, 0int,
{
    match s {
        StmtView::VarDecl { name, is_mut, type_ann, init, span } => match tc_expr(st, init) {
            Err(err) => (st, Err(err)),
            Ok(init_ty) => match type_ann {
                Some(ann) => if !compatible(ann_type(ann), init_ty) {
                    (st, Err(mismatch(type_text(ann_type(ann)), type_text(init_ty), init.span)))
                } else {
                    (define(st, name, ann_type(ann), is_mut, span), Ok(()))
                },
                None => (define(st, name, init_ty, is_mut, span), Ok(())),
            },
        },
        StmtView::Assignment { target, value, span } => match lookup_scopes(st.scopes, target) {
            None => (st, Err(TypeErrorView::UndefinedVar { name: target, span })),
            Some(info) => if !info.is_mut {
                (st, Err(TypeErrorView::CannotMutateImmutable { name: target, span }))
            } else {
                match tc_expr(st, value) {
                    Err(err) => (st, Err(err)),
                    Ok(t) => if !compatible(info.ty, t) {
                        (st, Err(mismatch(type_text(info.ty), type_text(t), value.span)))
                    } else {
                        (st, Ok(()))
                    },
                }
            },
        },
        StmtView::FieldAssignment { target, field, value, span } => match lookup_scopes(st.scopes, target) {
            None => (st, Err(TypeErrorView::UndefinedVar { name: target, span })),
            Some(info) => if !info.is_mut {
                (st, Err(TypeErrorView::CannotMutateImmutable { name: target, span }))
            } else {
                match assignable_struct_of(info.ty) {
                    None => (st, Err(mismatch("संरचना (Struct)"@, type_text(info.ty), span))),
                    Some(sname) => match find_last(st.structs, sname) {
                        None => (st, Err(TypeErrorView::UndefinedStruct { name: sname, span })),
                        Some(sinfo) => match find_last(sinfo.fields, field) {
                            None => (st, Err(TypeErrorView::UndefinedField { struct_name: sname, field, span })),
                            Some(ft) => match tc_expr(st, value) {
                                Err(err) => (st, Err(err)),
                                Ok(t) => if !compatible(ft, t) {
                                    (st, Err(mismatch(type_text(ft), type_text(t), value.span)))
                                } else {
                                    (st, Ok(()))
                                },
                            },
                        },
                    },
                }
            },
        },
        StmtView::IndexAssignment { target, index, value, span } => match tc_expr(st, *target) {
            Err(err) => (st, Err(err)),
            Ok(target_ty) => match tc_expr(st, *index) {
                Err(err) => (st, Err(err)),
                Ok(idx_ty) => if idx_ty != TypeView::Purna64 && idx_ty != TypeView::Unknown {
                    (st, Err(mismatch("पूर्ण६४ (Integer index)"@, type_text(idx_ty), index.span)))
                } else {
                    match tc_expr(st, value) {
                        Err(err) => (st, Err(err)),
                        Ok(t) => match target_ty {
                            TypeView::Soochi(elem) => if !compatible(*elem, t) {
                                (st, Err(mismatch(type_text(*elem), type_text(t), value.span)))
                            } else {
                                (st, Ok(()))
                            },
                            TypeView::SoochiAny | TypeView::Unknown => (st, Ok(())),
                            other => (st, Err(mismatch("सूची (List)"@, type_text(other), span))),
                        },
                    }
                },
            },
        },
        StmtView::If { condition, then_branch, else_branch, span: _ } => match tc_expr(st, condition) {
            Err(err) => (st, Err(err)),
            Ok(t) => if !cond_ok(t) {
                (st, Err(mismatch("द्वैध (Boolean)"@, type_text(t), condition.span)))
            } else {
                let (st1, r1) = tc_block(enter(st), then_branch, 0);
                match r1 {
                    Err(err) => (st1, Err(err)),
                    Ok(_) => match else_branch {
                        None => (exit(st1), Ok(())),
                        Some(els) => {
                            let (st2, r2) = tc_block(enter(exit(st1)), els, 0);
                            match r2 {
                                Err(err) => (st2, Err(err)),
                                Ok(_) => (exit(st2), Ok(())),
                            }
                        },
                    },
                }
            },
        },
        StmtView::While { condition, body, span: _ } => match tc_expr(st, condition) {
            Err(err) => (st, Err(err)),
            Ok(t) => if !cond_ok(t) {
                (st, Err(mismatch("द्वैध (Boolean)"@, type_text(t), condition.span)))
            } else {
                let (st1, r1) = tc_block(enter(st), body, 0);
                match r1 {
                    Err(err) => (st1, Err(err)),
                    Ok(_) => (exit(st1), Ok(())),
                }
            },
        },
        StmtView::Return { value, span } => {
            let vt: Result<TypeView, TypeErrorView> = match value {
                Some(v) => tc_expr(st, v),
                None => Ok(TypeView::Rikta),
            };
            match vt {
                Err(err) => (st, Err(err)),
                Ok(t) => if st.ret != t && t != TypeView::Unknown {
                    (st, Err(mismatch(type_text(st.ret), type_text(t), span)))
                } else {
                    (st, Ok(()))
                },
            }
        },
        StmtView::Expr(e) => match tc_expr(st, e) {
            Err(err) => (st, Err(err)),
            Ok(_) => (st, Ok(())),
        },
    }
}

/// Statements from `i` on, in turn, stopping at the first error.
pub open spec fn tc_block(st: TcView, stmts: Seq<StmtView>, i: int) -> (TcView, Result<(), TypeErrorView>)
    decreases stmts, stmts.len() - i,
{
    if i < 0 || i >= stmts.len() {
        (st, Ok(()))
    } else {
        let (st1, r) = tc_stmt(st, stmts[i]);
        match r {
            Err(err) => (st1, Err(err)),
            Ok(_) => tc_block(st1, stmts, i + 1),
        }
    }
}

// --- Programs --------------------------------------------------------------

pub open spec fn zero_span() -> Span {
    Span { start: 0, end: 0, line: 0, column: 0 }
}

pub open spec fn builtin(name: Seq<char>, params: Seq<TypeView>, ret: TypeView) -> (Seq<char>, SigView) {
    (name, SigView { params, ret, span: zero_span() })
}

/// The `i`-th of the functions that every program may call.
pub open spec fn builtin_at(i: int) -> (Seq<char>, SigView) {
    if i == 0 {
        builtin("मुद्रय"@, seq![], TypeView::Rikta)
    } else if i == 1 {
        builtin("सूची_सृज"@, seq![TypeView::Purna64, TypeView::Unknown], TypeView::SoochiAny)
    } else if i == 2 {
        builtin("सूची_दैर्घ्यम्"@, seq![TypeView::SoochiAny], TypeView::Purna64)
    } else if i == 3 {
        builtin("सूची_संयोजय"@, seq![TypeView::SoochiAny, TypeView::Unknown], TypeView::Rikta)
    } else if i == 4 {
        builtin("सूत्र_दैर्घ्यम्"@, seq![TypeView::Sutra], TypeView::Purna64)
    } else if i == 5 {
        builtin("सूत्र_वर्ण"@, seq![TypeView::Sutra, TypeView::Purna64], TypeView::Sutra)
    } else if i == 6 {
        builtin("सूत्र_अंश"@, seq![TypeView::Sutra, TypeView::Purna64, TypeView::Purna64], TypeView::Sutra)
    } else if i == 7 {
        builtin("लॉग"@, seq![TypeView::Ansha64], TypeView::Ansha64)
    } else if i == 8 {
        builtin("घाताङ्क"@, seq![TypeView::Ansha64], TypeView::Ansha64)
    } else if i == 9 {
        builtin("वर्गमूल"@, seq![TypeView::Ansha64], TypeView::Ansha64)
    } else if i == 10 {
        builtin("पूर्णाङ्क"@, seq![TypeView::Ansha64], TypeView::Purna64)
    } else if i == 11 {
        builtin("अंशाङ्क"@, seq![TypeView::Purna64], TypeView::Ansha64)
    } else if i == 12 {
        builtin("संचिका_पठ"@, seq![TypeView::Sutra], TypeView::Sutra)
    } else if i == 13 {
        builtin("संचिका_लेख"@, seq![TypeView::Sutra, TypeView::Sutra], TypeView::Rikta)
    } else if i == 14 {
        builtin("संचिका_लिख"@, seq![TypeView::Sutra, TypeView::Sutra], TypeView::Rikta)
    } else if i == 15 {
        builtin("संचिका_विद्यते"@, seq![TypeView::Sutra], TypeView::Dvaidha)
    } else if i == 16 {
        builtin("सूत्र_विभाजय"@, seq![TypeView::Sutra, TypeView::Sutra], TypeView::Soochi(Box::new(TypeView::Sutra)))
    } else if i == 17 {
        builtin("सूची_संयोग"@, seq![TypeView::SoochiAny, TypeView::Sutra], TypeView::Sutra)
    } else if i == 18 {
        builtin("संख्या_पाठ"@, seq![TypeView::Sutra], TypeView::Ansha64)
    } else if i == 19 {
        builtin("रेलू"@, seq![TypeView::Ansha64], TypeView::Ansha64)
    } else if i == 20 {
        builtin("महत्तम"@, seq![TypeView::Ansha64, TypeView::Ansha64], TypeView::Ansha64)
    } else if i == 21 {
        builtin("न्यूनतम"@, seq![TypeView::Ansha64, TypeView::Ansha64], TypeView::Ansha64)
    } else {
        builtin("सूत्र_रूप"@, seq![TypeView::Unknown], TypeView::Sutra)
    }
}

/// The functions that every program may call.
pub open spec fn builtin_functions() -> Seq<(Seq<char>, SigView)> {
    Seq::new(23, |i: int| builtin_at(i))
}

/// A fresh checker: the built-in functions, one empty scope, return type रिक्त.
pub open spec fn tc_new() -> TcView {
    TcView {
        functions: builtin_functions(),
        structs: Seq::empty(),
        methods: Seq::empty(),
        scopes: seq![Seq::empty()],
        ret: TypeView::Rikta,
    }
}

pub open spec fn struct_info_of(s: StructView) -> StructInfoView {
    StructInfoView {
        name: s.name,
        fields: s.fields.map_values(|f: FieldView| (f.name, ann_type(f.type_ann))),
        field_order: s.fields.map_values(|f: FieldView| f.name),
        span: s.span,
    }
}

pub open spec fn ret_type(o: Option<AnnView>) -> TypeView {
    match o {
        Some(a) => ann_type(a),
        None => TypeView::Rikta,
    }
}

pub open spec fn fn_sig(f: FunctionView) -> SigView {
    SigView { params: f.params.map_values(|p: ParamView| ann_type(p.type_ann)), ret: ret_type(f.return_type), span: f.span }
}

/// The type of a method's parameter: the receiver `स्व` is the target struct,
/// by reference where it is written so.
pub open spec fn method_param_type(target: Seq<char>, p: ParamView) -> TypeView {
    if p.name == "स्व"@ {
        match p.type_ann {
            AnnView::Reference(_) => TypeView::Reference(Box::new(TypeView::Struct(target))),
            AnnView::MutReference(_) => TypeView::MutReference(Box::new(TypeView::Struct(target))),
            _ => TypeView::Struct(target),
        }
    } else {
        ann_type(p.type_ann)
    }
}

pub open spec fn method_sig(target: Seq<char>, m: FunctionView) -> SigView {
    SigView {
        params: m.params.map_values(|p: ParamView| method_param_type(target, p)),
        ret: ret_type(m.return_type),
        span: m.span,
    }
}

/// The first pass: the structs that the items declare, from `i` on.
pub open spec fn collect_structs(st: TcView, items: Seq<ItemView>, i: int) -> TcView
    decreases items.len() - i,
{
    if i < 0 || i >= items.len() {
        st
    } else {
        match items[i] {
            ItemView::Struct(s) => collect_structs(TcView { structs: st.structs.push((s.name, struct_info_of(s))), ..st }, items, i + 1),
            _ => collect_structs(st, items, i + 1),
        }
    }
}

/// The methods of an impl block from `j` on, added to the method table.
pub open spec fn add_methods(methods: Seq<((Seq<char>, Seq<char>), SigView)>, target: Seq<char>, ms: Seq<FunctionView>, j: int) -> Seq<((Seq<char>, Seq<char>), SigView)>
    decreases ms.len() - j,
{
    if j < 0 || j >= ms.len() {
        methods
    } else {
        add_methods(methods.push(((target, ms[j].name), method_sig(target, ms[j]))), target, ms, j + 1)
    }
}

/// The second pass: the signatures of functions and methods, from `i` on.
pub open spec fn collect_sigs(st: TcView, items: Seq<ItemView>, i: int) -> TcView
    decreases items.len() - i,
{
    if i < 0 || i >= items.len() {
        st
    } else {
        match items[i] {
            ItemView::Function(f) => collect_sigs(TcView { functions: st.functions.push((f.name, fn_sig(f))), ..st }, items, i + 1),
            ItemView::Impl(b) => collect_sigs(TcView { methods: add_methods(st.methods, b.target, b.methods, 0), ..st }, items, i + 1),
            _ => collect_sigs(st, items, i + 1),
        }
    }
}

/// The parameters of a function from `j` on, defined as immutable variables.
pub open spec fn define_params(st: TcView, params: Seq<ParamView>, j: int) -> TcView
    decreases params.len() - j,
{
    if j < 0 || j >= params.len() {
        st
    } else {
        define_params(define(st, params[j].name, ann_type(params[j].type_ann), false, params[j].span), params, j + 1)
    }
}

/// The parameters of a method from `j` on, with the signature's types; a
/// parameter taken by mutable reference is mutable.
pub open spec fn define_method_params(st: TcView, params: Seq<ParamView>, tys: Seq<TypeView>, j: int) -> TcView
    decreases params.len() - j,
{
    if j < 0 || j >= params.len() || j >= tys.len() {
        st
    } else {
        define_method_params(define(st, params[j].name, tys[j], tys[j] is MutReference, params[j].span), params, tys, j + 1)
    }
}

/// A function: its body in a new scope, with its parameters and return type.
pub open spec fn tc_function(st: TcView, f: FunctionView) -> (TcView, Result<(), TypeErrorView>) {
    let st1 = TcView { ret: ret_type(f.return_type), ..enter(st) };
    let (st2, r) = tc_block(define_params(st1, f.params, 0), f.body, 0);
    match r {
        Err(err) => (st2, Err(err)),
        Ok(_) => (exit(st2), Ok(())),
    }
}

/// A method of `target`, against the signature that the method table holds for
/// it (the second pass put one there for every method).
pub open spec fn tc_method(st: TcView, target: Seq<char>, m: FunctionView) -> (TcView, Result<(), TypeErrorView>) {
    match find_last(st.methods, (target, m.name)) {
        None => (st, Ok(())),
        Some(sig) => {
            let st1 = TcView { ret: sig.ret, ..enter(st) };
            let (st2, r) = tc_block(define_method_params(st1, m.params, sig.params, 0), m.body, 0);
            match r {
                Err(err) => (st2, Err(err)),
                Ok(_) => (exit(TcView { ret: st.ret, ..st2 }), Ok(())),
            }
        },
    }
}

/// The methods of an impl block from `j` on.
pub open spec fn tc_methods(st: TcView, target: Seq<char>, ms: Seq<FunctionView>, j: int) -> (TcView, Result<(), TypeErrorView>)
    decreases ms.len() - j,
{
    if j < 0 || j >= ms.len() {
        (st, Ok(()))
    } else {
        let (st1, r) = tc_method(st, target, ms[j]);
        match r {
            Err(err) => (st1, Err(err)),
            Ok(_) => tc_methods(st1, target, ms, j + 1),
        }
    }
}

/// The third pass: the items from `i` on.
pub open spec fn check_items(st: TcView, items: Seq<ItemView>, i: int) -> (TcView, Result<(), TypeErrorView>)
    decreases items.len() - i,
{
    if i < 0 || i >= items.len() {
        (st, Ok(()))
    } else {
        let (st1, r): (TcView, Result<(), TypeErrorView>) = match items[i] {
            ItemView::Function(f) => tc_function(st, f),
            ItemView::Impl(b) => tc_methods(st, b.target, b.methods, 0),
            ItemView::Statement(s) => tc_stmt(st, s),
            _ => (st, Ok(())),
        };
        match r {
            Err(err) => (st1, Err(err)),
            Ok(_) => check_items(st1, items, i + 1),
        }
    }
}

/// A program: its structs, then its signatures, then its items.
pub open spec fn tc_program(st: TcView, p: ProgramView) -> (TcView, Result<(), TypeErrorView>) {
    check_items(collect_sigs(collect_structs(st, p.items, 0), p.items, 0), p.items, 0)
}


// --- One step of each checking function ---------------------------------------

/// One step of `tc_expr`.
pub proof fn lemma_tc_expr(st: TcView, e: ExprView)
    ensures
        tc_expr(st, e) == ({
            match e.kind {
                ExprKindView::DevanagariInteger(_, _) => Ok(TypeView::Purna64),
                ExprKindView::DevanagariFloat(_) => Ok(TypeView::Ansha64),
                ExprKindView::StringLiteral(_) => Ok(TypeView::Sutra),
                ExprKindView::BoolLiteral(_) => Ok(TypeView::Dvaidha),
                ExprKindView::ArrayLiteral(elems) => {
                    if elems.len() == 0 {
                        Ok(TypeView::SoochiAny)
                    } else {
                        match tc_expr(st, elems[0]) {
                            Err(err) => Err(err),
                            Ok(first) => match tc_elems(st, first, elems, 1) {
                                Err(err) => Err(err),
                                Ok(_) => Ok(TypeView::Soochi(Box::new(first))),
                            },
                        }
                    }
                },
                ExprKindView::Index { target, index } => match tc_expr(st, *target) {
                    Err(err) => Err(err),
                    Ok(target_ty) => match tc_expr(st, *index) {
                        Err(err) => Err(err),
                        Ok(idx_ty) => if idx_ty != TypeView::Purna64 && idx_ty != TypeView::Unknown {
                            Err(mismatch("पूर्ण६४ (Integer index)"@, type_text(idx_ty), index.span))
                        } else {
                            match target_ty {
                                TypeView::Soochi(elem) => Ok(*elem),
                                TypeView::SoochiAny => Ok(TypeView::Unknown),
                                TypeView::Sutra => Ok(TypeView::Sutra),
                                other => Err(mismatch("सूची वा सूत्र (List or String)"@, type_text(other), target.span)),
                            }
                        },
                    },
                },
                ExprKindView::Identifier(name) => match lookup_scopes(st.scopes, name) {
                    Some(info) => Ok(info.ty),
                    None => Err(TypeErrorView::UndefinedVar { name, span: e.span }),
                },
                ExprKindView::Unary { op, expr: inner } => match tc_expr(st, *inner) {
                    Err(err) => Err(err),
                    Ok(t) => match op {
                        UnaryOp::Neg => if numeric(t) {
                            Ok(t)
                        } else {
                            Err(mismatch("संख्या (Number)"@, type_text(t), e.span))
                        },
                        UnaryOp::Not => if t == TypeView::Dvaidha {
                            Ok(TypeView::Dvaidha)
                        } else {
                            Err(mismatch("द्वैध (Boolean)"@, type_text(t), e.span))
                        },
                    },
                },
                ExprKindView::Borrow { is_mut, expr: inner } => match tc_expr(st, *inner) {
                    Err(err) => Err(err),
                    Ok(t) => if is_mut {
                        match mutable_name_error(st, *inner, e.span) {
                            Some(err) => Err(err),
                            None => Ok(TypeView::MutReference(Box::new(t))),
                        }
                    } else {
                        Ok(TypeView::Reference(Box::new(t)))
                    },
                },
                ExprKindView::Binary { left, op, right } => match tc_expr(st, *left) {
                    Err(err) => Err(err),
                    Ok(l) => match tc_expr(st, *right) {
                        Err(err) => Err(err),
                        Ok(r) => binary_type(op, l, r, e.span),
                    },
                },
                ExprKindView::Call { callee, args } => {
                    if callee == "मुद्रय"@ {
                        match tc_any_args(st, args, 0) {
                            Err(err) => Err(err),
                            Ok(_) => Ok(TypeView::Rikta),
                        }
                    } else {
                        match find_last(st.functions, callee) {
                            None => Err(TypeErrorView::UndefinedFunc { name: callee, span: e.span }),
                            Some(sig) => if sig.params.len() != args.len() {
                                Err(TypeErrorView::ArgCountMismatch {
                                    expected: sig.params.len() as usize,
                                    found: args.len() as usize,
                                    span: e.span,
                                })
                            } else {
                                match tc_call_args(st, sig.params, args, 0) {
                                    Err(err) => Err(err),
                                    Ok(_) => Ok(sig.ret),
                                }
                            },
                        }
                    }
                },
                ExprKindView::FieldAccess { target, field } => match tc_expr(st, *target) {
                    Err(err) => Err(err),
                    Ok(t) => match struct_of(t) {
                        None => Err(mismatch("संरचना (Struct)"@, type_text(t), e.span)),
                        Some(sname) => match find_last(st.structs, sname) {
                            None => Err(TypeErrorView::UndefinedStruct { name: sname, span: e.span }),
                            Some(info) => match find_last(info.fields, field) {
                                None => Err(TypeErrorView::UndefinedField { struct_name: sname, field, span: e.span }),
                                Some(ft) => Ok(ft),
                            },
                        },
                    },
                },
                ExprKindView::MethodCall { target, method, args } => match tc_expr(st, *target) {
                    Err(err) => Err(err),
                    Ok(t) => match struct_of(t) {
                        None => Err(mismatch("संरचना (Struct)"@, type_text(t), e.span)),
                        Some(sname) => match find_last(st.methods, (sname, method)) {
                            None => Err(TypeErrorView::UndefinedMethod { struct_name: sname, method, span: e.span }),
                            Some(sig) => if sig.params.len() == 0 {
                                Err(TypeErrorView::ArgCountMismatch { expected: 1, found: 0, span: e.span })
                            } else {
                                match (if sig.params[0] is MutReference { mutable_name_error(st, *target, target.span) } else { None }) {
                                    Some(err) => Err(err),
                                    None => if sig.params.len() - 1 != args.len() {
                                        Err(TypeErrorView::ArgCountMismatch {
                                            expected: (sig.params.len() - 1) as usize,
                                            found: args.len() as usize,
                                            span: e.span,
                                        })
                                    } else {
                                        match tc_method_args(st, sig.params, args, 0) {
                                            Err(err) => Err(err),
                                            Ok(_) => Ok(sig.ret),
                                        }
                                    },
                                }
                            },
                        },
                    },
                },
                ExprKindView::StructInit { name, fields } => match find_last(st.structs, name) {
                    None => Err(TypeErrorView::UndefinedStruct { name, span: e.span }),
                    Some(info) => match tc_init_fields(st, name, info, fields, 0) {
                        Err(err) => Err(err),
                        Ok(_) => match first_missing(info.field_order, fields, 0) {
                            Some(f) => Err(TypeErrorView::MissingStructField { struct_name: name, field: f, span: e.span }),
                            None => Ok(TypeView::Struct(name)),
                        },
                    },
                },
            }
        }),
{
}

/// One step of `tc_elems`.
pub proof fn lemma_tc_elems(st: TcView, first: TypeView, elems: Seq<ExprView>, i: int)
    ensures
        tc_elems(st, first, elems, i) == ({
            if i < 0 || i >= elems.len() {
                Ok(())
            } else {
                match tc_expr(st, elems[i]) {
                    Err(err) => Err(err),
                    Ok(t) => if !compatible(first, t) {
                        Err(mismatch(type_text(first), type_text(t), elems[i].span))
                    } else {
                        tc_elems(st, first, elems, i + 1)
                    },
                }
            }
        }),
{
}

/// One step of `tc_any_args`.
pub proof fn lemma_tc_any_args(st: TcView, args: Seq<ExprView>, i: int)
    ensures
        tc_any_args(st, args, i) == ({
            if i < 0 || i >= args.len() {
                Ok(())
            } else {
                match tc_expr(st, args[i]) {
                    Err(err) => Err(err),
                    Ok(_) => tc_any_args(st, args, i + 1),
                }
            }
        }),
{
}

/// One step of `tc_call_args`.
pub proof fn lemma_tc_call_args(st: TcView, params: Seq<TypeView>, args: Seq<ExprView>, i: int)
    ensures
        tc_call_args(st, params, args, i) == ({
            if i < 0 || i >= args.len() {
                Ok(())
            } else {
                match tc_expr(st, args[i]) {
                    Err(err) => Err(err),
                    Ok(t) => if !compatible(params[i], t) {
                        Err(mismatch(type_text(params[i]), type_text(t), args[i].span))
                    } else {
                        tc_call_args(st, params, args, i + 1)
                    },
                }
            }
        }),
{
}

/// One step of `tc_method_args`.
pub proof fn lemma_tc_method_args(st: TcView, params: Seq<TypeView>, args: Seq<ExprView>, i: int)
    ensures
        tc_method_args(st, params, args, i) == ({
            if i < 0 || i >= args.len() {
                Ok(())
            } else {
                match tc_expr(st, args[i]) {
                    Err(err) => Err(err),
                    Ok(t) => if params[i + 1] != t && t != TypeView::Unknown {
                        Err(mismatch(type_text(params[i + 1]), type_text(t), args[i].span))
                    } else {
                        tc_method_args(st, params, args, i + 1)
                    },
                }
            }
        }),
{
}

/// One step of `tc_init_fields`.
pub proof fn lemma_tc_init_fields(st: TcView, name: Seq<char>, info: StructInfoView, fields: Seq<(Seq<char>, ExprView)>, i: int)
    ensures
        tc_init_fields(st, name, info, fields, i) == ({
            if i < 0 || i >= fields.len() {
                Ok(())
            } else {
                match tc_expr(st, fields[i].1) {
                    Err(err) => Err(err),
                    Ok(t) => match find_last(info.fields, fields[i].0) {
                        None => Err(TypeErrorView::UndefinedField { struct_name: name, field: fields[i].0, span: fields[i].1.span }),
                        Some(ft) => if !compatible(ft, t) {
                            Err(mismatch(type_text(ft), type_text(t), fields[i].1.span))
                        } else {
                            tc_init_fields(st, name, info, fields, i + 1)
                        },
                    },
                }
            }
        }),
{
}

/// One step of `tc_stmt`.
pub proof fn lemma_tc_stmt(st: TcView, s: StmtView)
    ensures
        tc_stmt(st, s) == ({
            match s {
                StmtView::VarDecl { name, is_mut, type_ann, init, span } => match tc_expr(st, init) {
                    Err(err) => (st, Err(err)),
                    Ok(init_ty) => match type_ann {
                        Some(ann) => if !compatible(ann_type(ann), init_ty) {
                            (st, Err(mismatch(type_text(ann_type(ann)), type_text(init_ty), init.span)))
                        } else {
                            (define(st, name, ann_type(ann), is_mut, span), Ok(()))
                        },
                        None => (define(st, name, init_ty, is_mut, span), Ok(())),
                    },
                },
                StmtView::Assignment { target, value, span } => match lookup_scopes(st.scopes, target) {
                    None => (st, Err(TypeErrorView::UndefinedVar { name: target, span })),
                    Some(info) => if !info.is_mut {
                        (st, Err(TypeErrorView::CannotMutateImmutable { name: target, span }))
                    } else {
                        match tc_expr(st, value) {
                            Err(err) => (st, Err(err)),
                            Ok(t) => if !compatible(info.ty, t) {
                                (st, Err(mismatch(type_text(info.ty), type_text(t), value.span)))
                            } else {
                                (st, Ok(()))
                            },
                        }
                    },
                },
                StmtView::FieldAssignment { target, field, value, span } => match lookup_scopes(st.scopes, target) {
                    None => (st, Err(TypeErrorView::UndefinedVar { name: target, span })),
                    Some(info) => if !info.is_mut {
                        (st, Err(TypeErrorView::CannotMutateImmutable { name: target, span }))
                    } else {
                        match assignable_struct_of(info.ty) {
                            None => (st, Err(mismatch("संरचना (Struct)"@, type_text(info.ty), span))),
                            Some(sname) => match find_last(st.structs, sname) {
                                None => (st, Err(TypeErrorView::UndefinedStruct { name: sname, span })),
                                Some(sinfo) => match find_last(sinfo.fields, field) {
                                    None => (st, Err(TypeErrorView::UndefinedField { struct_name: sname, field, span })),
                                    Some(ft) => match tc_expr(st, value) {
                                        Err(err) => (st, Err(err)),
                                        Ok(t) => if !compatible(ft, t) {
                                            (st, Err(mismatch(type_text(ft), type_text(t), value.span)))
                                        } else {
                                            (st, Ok(()))
                                        },
                                    },
                                },
                            },
                        }
                    },
                },
                StmtView::IndexAssignment { target, index, value, span } => match tc_expr(st, *target) {
                    Err(err) => (st, Err(err)),
                    Ok(target_ty) => match tc_expr(st, *index) {
                        Err(err) => (st, Err(err)),
                        Ok(idx_ty) => if idx_ty != TypeView::Purna64 && idx_ty != TypeView::Unknown {
                            (st, Err(mismatch("पूर्ण६४ (Integer index)"@, type_text(idx_ty), index.span)))
                        } else {
                            match tc_expr(st, value) {
                                Err(err) => (st, Err(err)),
                                Ok(t) => match target_ty {
                                    TypeView::Soochi(elem) => if !compatible(*elem, t) {
                                        (st, Err(mismatch(type_text(*elem), type_text(t), value.span)))
                                    } else {
                                        (st, Ok(()))
                                    },
                                    TypeView::SoochiAny | TypeView::Unknown => (st, Ok(())),
                                    other => (st, Err(mismatch("सूची (List)"@, type_text(other), span))),
                                },
                            }
                        },
                    },
                },
                StmtView::If { condition, then_branch, else_branch, span: _ } => match tc_expr(st, condition) {
                    Err(err) => (st, Err(err)),
                    Ok(t) => if !cond_ok(t) {
                        (st, Err(mismatch("द्वैध (Boolean)"@, type_text(t), condition.span)))
                    } else {
                        let (st1, r1) = tc_block(enter(st), then_branch, 0);
                        match r1 {
                            Err(err) => (st1, Err(err)),
                            Ok(_) => match else_branch {
                                None => (exit(st1), Ok(())),
                                Some(els) => {
                                    let (st2, r2) = tc_block(enter(exit(st1)), els, 0);
                                    match r2 {
                                        Err(err) => (st2, Err(err)),
                                        Ok(_) => (exit(st2), Ok(())),
                                    }
                                },
                            },
                        }
                    },
                },
                StmtView::While { condition, body, span: _ } => match tc_expr(st, condition) {
                    Err(err) => (st, Err(err)),
                    Ok(t) => if !cond_ok(t) {
                        (st, Err(mismatch("द्वैध (Boolean)"@, type_text(t), condition.span)))
                    } else {
                        let (st1, r1) = tc_block(enter(st), body, 0);
                        match r1 {
                            Err(err) => (st1, Err(err)),
                            Ok(_) => (exit(st1), Ok(())),
                        }
                    },
                },
                StmtView::Return { value, span } => {
                    let vt: Result<TypeView, TypeErrorView> = match value {
                        Some(v) => tc_expr(st, v),
                        None => Ok(TypeView::Rikta),
                    };
                    match vt {
                        Err(err) => (st, Err(err)),
                        Ok(t) => if st.ret != t && t != TypeView::Unknown {
                            (st, Err(mismatch(type_text(st.ret), type_text(t), span)))
                        } else {
                            (st, Ok(()))
                        },
                    }
                },
                StmtView::Expr(e) => match tc_expr(st, e) {
                    Err(err) => (st, Err(err)),
                    Ok(_) => (st, Ok(())),
                },
            }
        }),
{
}

/// One step of `tc_block`.
pub proof fn lemma_tc_block(st: TcView, stmts: Seq<StmtView>, i: int)
    ensures
        tc_block(st, stmts, i) == ({
            if i < 0 || i >= stmts.len() {
                (st, Ok(()))
            } else {
                let (st1, r) = tc_stmt(st, stmts[i]);
                match r {
                    Err(err) => (st1, Err(err)),
                    Ok(_) => tc_block(st1, stmts, i + 1),
                }
            }
        }),
{
}

// ---------------------------------------------------------------------------
// The checker.
// ---------------------------------------------------------------------------

/// The type checker: tables of functions, structs and methods, the scopes of
/// variables, and the return type of the function being checked.
pub struct TypeChecker {
    functions: Vec<(String, FuncSignature)>,
    structs: Vec<(String, StructInfo)>,
    methods: Vec<((String, String), FuncSignature)>,
    scopes: Vec<Vec<(String, VarInfo)>>,
    current_return_type: Type,
}

pub open spec fn scope_view(sc: Vec<(String, VarInfo)>) -> Seq<(Seq<char>, VarView)> {
    sc@.map_values(|p: (String, VarInfo)| (p.0@, p.1@))
}

impl View for TypeChecker {
    type V = TcView;

    closed spec fn view(&self) -> TcView {
        TcView {
            functions: self.functions@.map_values(|p: (String, FuncSignature)| (p.0@, p.1@)),
            structs: self.structs@.map_values(|p: (String, StructInfo)| (p.0@, p.1@)),
            methods: self.methods@.map_values(|p: ((String, String), FuncSignature)| ((p.0.0@, p.0.1@), p.1@)),
            scopes: self.scopes@.map_values(|sc: Vec<(String, VarInfo)>| scope_view(sc)),
            ret: self.current_return_type@,
        }
    }
}

/// The last entry of `s` whose key is at index `i` decides the lookup.
pub proof fn lemma_find_last_at<K, V>(s: Seq<(K, V)>, k: K, i: int)
    requires
        0 <= i < s.len(),
        s[i].0 == k,
        forall|j: int| i < j < s.len() ==> s[j].0 != k,
    ensures
        find_last(s, k) == Some(s[i].1),
    decreases s.len(),
{
    if i < s.len() - 1 {
        lemma_find_last_at(s.drop_last(), k, i);
    }
}

/// A key that no entry has is not found.
pub proof fn lemma_find_last_none<K, V>(s: Seq<(K, V)>, k: K)
    requires
        forall|j: int| 0 <= j < s.len() ==> s[j].0 != k,
    ensures
        find_last(s, k) is None,
    decreases s.len(),
{
    if s.len() > 0 {
        lemma_find_last_none(s.drop_last(), k);
    }
}

/// Copies of a list of types.
pub fn dup_types(v: &Vec<Type>) -> (r: Vec<Type>)
    ensures
        types_view(r@) == types_view(v@),
{
    let mut r: Vec<Type> = Vec::new();
    let mut i: usize = 0;
    while i < v.len()
        invariant
            i <= v@.len(),
            r@.len() == i,
            forall|j: int| 0 <= j < i ==> #[trigger] r@[j]@ == v@[j]@,
        decreases v.len() - i,
    {
        r.push(v[i].duplicate());
        i = i + 1;
    }
    proof {
        assert(types_view(r@) =~= types_view(v@));
    }
    r
}

impl FuncSignature {
    pub fn duplicate(&self) -> (r: FuncSignature)
        ensures
            r@ == self@,
    {
        FuncSignature { params: dup_types(&self.params), return_type: self.return_type.duplicate(), span: self.span }
    }
}

impl VarInfo {
    pub fn duplicate(&self) -> (r: VarInfo)
        ensures
            r@ == self@,
    {
        VarInfo { ty: self.ty.duplicate(), is_mut: self.is_mut, span: self.span }
    }
}

impl StructInfo {
    pub fn duplicate(&self) -> (r: StructInfo)
        ensures
            r@ == self@,
    {
        let mut fields: Vec<(String, Type)> = Vec::new();
        let mut i: usize = 0;
        while i < self.fields.len()
            invariant
                i <= self.fields@.len(),
                fields@.len() == i,
                forall|j: int| 0 <= j < i ==> #[trigger] fields@[j].0@ == self.fields@[j].0@ && fields@[j].1@ == self.fields@[j].1@,
            decreases self.fields.len() - i,
        {
            fields.push((self.fields[i].0.clone(), self.fields[i].1.duplicate()));
            i = i + 1;
        }
        let mut order: Vec<String> = Vec::new();
        let mut k: usize = 0;
        while k < self.field_order.len()
            invariant
                k <= self.field_order@.len(),
                order@.len() == k,
                forall|j: int| 0 <= j < k ==> #[trigger] order@[j]@ == self.field_order@[j]@,
            decreases self.field_order.len() - k,
        {
            order.push(self.field_order[k].clone());
            k = k + 1;
        }
        let r = StructInfo { name: self.name.clone(), fields, field_order: order, span: self.span };
        proof {
            assert(r@.fields =~= self@.fields);
            assert(r@.field_order =~= self@.field_order);
        }
        r
    }

    /// The type of the field `name`.
    pub fn field_type(&self, name: &String) -> (r: Option<Type>)
        ensures
            match r {
                Some(t) => find_last(self@.fields, name@) == Some(t@),
                None => find_last(self@.fields, name@) is None,
            },
    {
        let ghost sv = self@.fields;
        let mut i = self.fields.len();
        while i > 0
            invariant
                i <= self.fields@.len(),
                sv == self@.fields,
                forall|j: int| i <= j < self.fields@.len() ==> #[trigger] sv[j].0 != name@,
            decreases i,
        {
            i = i - 1;
            if self.fields[i].0 == *name {
                proof {
                    lemma_find_last_at(sv, name@, i as int);
                }
                return Some(self.fields[i].1.duplicate());
            }
        }
        proof {
            lemma_find_last_none(sv, name@);
        }
        None
    }
}

/// Whether a value of type `actual` may stand where `expected` is expected.
pub fn types_compatible(expected: &Type, actual: &Type) -> (r: bool)
    ensures
        r == compatible(expected@, actual@),
{
    if expected.same(actual) {
        return true;
    }
    match expected {
        Type::Unknown => {
            return true;
        },
        _ => {},
    }
    match actual {
        Type::Unknown => {
            return true;
        },
        _ => {},
    }
    match (expected, actual) {
        (Type::SoochiAny, Type::Soochi(_)) => {
            return true;
        },
        (Type::Soochi(_), Type::SoochiAny) => {
            return true;
        },
        _ => {},
    }
    let left = match expected {
        Type::Reference(a) => a.same(actual),
        _ => false,
    };
    let right = match actual {
        Type::Reference(a) => a.same(expected),
        _ => false,
    };
    left || right
}

/// The views of the short type lists that the built-in signatures use.
proof fn lemma_types_small()
    ensures
        types_view(seq![]) =~= seq![],
        types_view(seq![Type::Purna64, Type::Unknown]) =~= seq![TypeView::Purna64, TypeView::Unknown],
        types_view(seq![Type::SoochiAny]) =~= seq![TypeView::SoochiAny],
        types_view(seq![Type::SoochiAny, Type::Unknown]) =~= seq![TypeView::SoochiAny, TypeView::Unknown],
        types_view(seq![Type::Sutra]) =~= seq![TypeView::Sutra],
        types_view(seq![Type::Sutra, Type::Purna64]) =~= seq![TypeView::Sutra, TypeView::Purna64],
        types_view(seq![Type::Sutra, Type::Purna64, Type::Purna64]) =~= seq![TypeView::Sutra, TypeView::Purna64, TypeView::Purna64],
        types_view(seq![Type::Ansha64]) =~= seq![TypeView::Ansha64],
        types_view(seq![Type::Purna64]) =~= seq![TypeView::Purna64],
        types_view(seq![Type::Sutra, Type::Sutra]) =~= seq![TypeView::Sutra, TypeView::Sutra],
        types_view(seq![Type::SoochiAny, Type::Sutra]) =~= seq![TypeView::SoochiAny, TypeView::Sutra],
        types_view(seq![Type::Unknown]) =~= seq![TypeView::Unknown],
{
}

fn sig_entry(name: &str, params: Vec<Type>, ret: Type) -> (r: (String, FuncSignature))
    ensures
        r.0@ == name@,
        r.1@.params == types_view(params@),
        r.1@.ret == ret@,
        r.1@.span == zero_span(),
{
    (String::from_str(name), FuncSignature { params, return_type: ret, span: Span::new(0, 0, 0, 0) })
}

/// The `i`-th built-in function's entry.
fn builtin_entry(i: usize) -> (r: (String, FuncSignature))
    requires
        i < 23,
    ensures
        r.0@ == builtin_at(i as int).0,
        r.1@.params == builtin_at(i as int).1.params,
        r.1@.ret == builtin_at(i as int).1.ret,
        r.1@.span == builtin_at(i as int).1.span,
{
    proof {
        lemma_types_small();
    }
    if i == 0 {
        sig_entry("मुद्रय", vec![], Type::Rikta)
    } else if i == 1 {
        sig_entry("सूची_सृज", vec![Type::Purna64, Type::Unknown], Type::SoochiAny)
    } else if i == 2 {
        sig_entry("सूची_दैर्घ्यम्", vec![Type::SoochiAny], Type::Purna64)
    } else if i == 3 {
        sig_entry("सूची_संयोजय", vec![Type::SoochiAny, Type::Unknown], Type::Rikta)
    } else if i == 4 {
        sig_entry("सूत्र_दैर्घ्यम्", vec![Type::Sutra], Type::Purna64)
    } else if i == 5 {
        sig_entry("सूत्र_वर्ण", vec![Type::Sutra, Type::Purna64], Type::Sutra)
    } else if i == 6 {
        sig_entry("सूत्र_अंश", vec![Type::Sutra, Type::Purna64, Type::Purna64], Type::Sutra)
    } else if i == 7 {
        sig_entry("लॉग", vec![Type::Ansha64], Type::Ansha64)
    } else if i == 8 {
        sig_entry("घाताङ्क", vec![Type::Ansha64], Type::Ansha64)
    } else if i == 9 {
        sig_entry("वर्गमूल", vec![Type::Ansha64], Type::Ansha64)
    } else if i == 10 {
        sig_entry("पूर्णाङ्क", vec![Type::Ansha64], Type::Purna64)
    } else if i == 11 {
        sig_entry("अंशाङ्क", vec![Type::Purna64], Type::Ansha64)
    } else if i == 12 {
        sig_entry("संचिका_पठ", vec![Type::Sutra], Type::Sutra)
    } else if i == 13 {
        sig_entry("संचिका_लेख", vec![Type::Sutra, Type::Sutra], Type::Rikta)
    } else if i == 14 {
        sig_entry("संचिका_लिख", vec![Type::Sutra, Type::Sutra], Type::Rikta)
    } else if i == 15 {
        sig_entry("संचिका_विद्यते", vec![Type::Sutra], Type::Dvaidha)
    } else if i == 16 {
        sig_entry("सूत्र_विभाजय", vec![Type::Sutra, Type::Sutra], Type::Soochi(Box::new(Type::Sutra)))
    } else if i == 17 {
        sig_entry("सूची_संयोग", vec![Type::SoochiAny, Type::Sutra], Type::Sutra)
    } else if i == 18 {
        sig_entry("संख्या_पाठ", vec![Type::Sutra], Type::Ansha64)
    } else if i == 19 {
        sig_entry("रेलू", vec![Type::Ansha64], Type::Ansha64)
    } else if i == 20 {
        sig_entry("महत्तम", vec![Type::Ansha64, Type::Ansha64], Type::Ansha64)
    } else if i == 21 {
        sig_entry("न्यूनतम", vec![Type::Ansha64, Type::Ansha64], Type::Ansha64)
    } else {
        sig_entry("सूत्र_रूप", vec![Type::Unknown], Type::Sutra)
    }
}

impl TypeChecker {
    /// A checker that knows the built-in functions, with one empty scope.
    pub fn new() -> (r: TypeChecker)
        ensures
            r@ == tc_new(),
    {
        let mut functions: Vec<(String, FuncSignature)> = Vec::new();
        let mut i: usize = 0;
        while i < 23
            invariant
                i <= 23,
                functions@.len() == i,
                forall|j: int| 0 <= j < i ==> #[trigger] functions@[j].0@ == builtin_at(j).0 && functions@[j].1@.params == builtin_at(j).1.params
                    && functions@[j].1@.ret == builtin_at(j).1.ret && functions@[j].1@.span == builtin_at(j).1.span,
            decreases 23 - i,
        {
            functions.push(builtin_entry(i));
            i = i + 1;
        }
        let mut scopes: Vec<Vec<(String, VarInfo)>> = Vec::new();
        let first: Vec<(String, VarInfo)> = Vec::new();
        scopes.push(first);
        proof {
            assert(scope_view(first) =~= Seq::<(Seq<char>, VarView)>::empty());
        }
        let r = TypeChecker {
            functions,
            structs: Vec::new(),
            methods: Vec::new(),
            scopes,
            current_return_type: Type::Rikta,
        };
        proof {
            assert(r@.functions =~= builtin_functions());
            assert(r@.scopes =~= seq![Seq::<(Seq<char>, VarView)>::empty()]);
            assert(r@.structs =~= Seq::<(Seq<char>, StructInfoView)>::empty());
            assert(r@.methods =~= Seq::<((Seq<char>, Seq<char>), SigView)>::empty());
        }
        r
    }

    /// Opens a new innermost scope.
    pub fn enter_scope(&mut self)
        ensures
            final(self)@ == enter(old(self)@),
    {
        let fresh: Vec<(String, VarInfo)> = Vec::new();
        self.scopes.push(fresh);
        proof {
            assert(scope_view(fresh) =~= Seq::<(Seq<char>, VarView)>::empty());
            assert(self@.scopes =~= old(self)@.scopes.push(Seq::empty()));
        }
    }

    /// Closes the innermost scope, if there is one.
    pub fn exit_scope(&mut self)
        ensures
            final(self)@ == exit(old(self)@),
    {
        if self.scopes.len() > 0 {
            self.scopes.pop();
            proof {
                assert(final(self)@.scopes =~= old(self)@.scopes.drop_last());
            }
        }
    }

    /// Defines a variable in the innermost scope, if there is one.
    pub fn define_var(&mut self, name: String, ty: Type, is_mut: bool, span: Span)
        ensures
            final(self)@ == define(old(self)@, name@, ty@, is_mut, span),
    {
        let ghost old_view = self@;
        match self.scopes.pop() {
            Some(mut scope) => {
                let ghost before = scope@;
                scope.push((name, VarInfo { ty, is_mut, span }));
                self.scopes.push(scope);
                proof {
                    assert(scope_view(scope) =~= before.map_values(|p: (String, VarInfo)| (p.0@, p.1@)).push((name@, VarView { ty: ty@, is_mut, span })));
                    assert(self@.scopes =~= old_view.scopes.update(
                        old_view.scopes.len() - 1,
                        old_view.scopes.last().push((name@, VarView { ty: ty@, is_mut, span })),
                    ));
                }
            },
            None => {},
        }
    }

    /// The variable `name` as the innermost scope that has it sees it.
    pub fn lookup_var(&self, name: &String) -> (r: Option<VarInfo>)
        ensures
            match r {
                Some(v) => lookup_scopes(self@.scopes, name@) == Some(v@),
                None => lookup_scopes(self@.scopes, name@) is None,
            },
    {
        let ghost sv = self@.scopes;
        let mut si = self.scopes.len();
        proof {
            assert(sv.subrange(0, si as int) =~= sv);
        }
        while si > 0
            invariant
                si <= self.scopes@.len(),
                sv == self@.scopes,
                lookup_scopes(sv, name@) == lookup_scopes(sv.subrange(0, si as int), name@),
            decreases si,
        {
            let ghost sub = sv.subrange(0, si as int);
            proof {
                assert(sub.drop_last() =~= sv.subrange(0, si - 1));
            }
            si = si - 1;
            let scope = &self.scopes[si];
            let ghost scv = sv[si as int];
            let mut i = scope.len();
            while i > 0
                invariant
                    i <= scope@.len(),
                    sv == self@.scopes,
                    scv == scope_view(*scope),
                    sub.len() > 0,
                    sub.last() == scv,
                    lookup_scopes(sv, name@) == lookup_scopes(sub, name@),
                    forall|j: int| i <= j < scope@.len() ==> #[trigger] scv[j].0 != name@,
                decreases i,
            {
                i = i - 1;
                if scope[i].0 == *name {
                    proof {
                        lemma_find_last_at(scv, name@, i as int);
                    }
                    return Some(scope[i].1.duplicate());
                }
            }
            proof {
                lemma_find_last_none(scv, name@);
            }
        }
        None
    }

    /// The signature of the function `name`.
    fn find_function(&self, name: &String) -> (r: Option<FuncSignature>)
        ensures
            match r {
                Some(s) => find_last(self@.functions, name@) == Some(s@),
                None => find_last(self@.functions, name@) is None,
            },
    {
        let ghost sv = self@.functions;
        let mut i = self.functions.len();
        while i > 0
            invariant
                i <= self.functions@.len(),
                sv == self@.functions,
                forall|j: int| i <= j < self.functions@.len() ==> #[trigger] sv[j].0 != name@,
            decreases i,
        {
            i = i - 1;
            if self.functions[i].0 == *name {
                proof {
                    lemma_find_last_at(sv, name@, i as int);
                }
                return Some(self.functions[i].1.duplicate());
            }
        }
        proof {
            lemma_find_last_none(sv, name@);
        }
        None
    }

    /// The struct `name`.
    fn find_struct(&self, name: &String) -> (r: Option<StructInfo>)
        ensures
            match r {
                Some(s) => find_last(self@.structs, name@) == Some(s@),
                None => find_last(self@.structs, name@) is None,
            },
    {
        let ghost sv = self@.structs;
        let mut i = self.structs.len();
        while i > 0
            invariant
                i <= self.structs@.len(),
                sv == self@.structs,
                forall|j: int| i <= j < self.structs@.len() ==> #[trigger] sv[j].0 != name@,
            decreases i,
        {
            i = i - 1;
            if self.structs[i].0 == *name {
                proof {
                    lemma_find_last_at(sv, name@, i as int);
                }
                return Some(self.structs[i].1.duplicate());
            }
        }
        proof {
            lemma_find_last_none(sv, name@);
        }
        None
    }

    /// The return type of the function being checked.
    fn return_type(&self) -> (r: Type)
        ensures
            r@ == self@.ret,
    {
        self.current_return_type.duplicate()
    }

    fn set_return_type(&mut self, t: Type)
        ensures
            final(self)@ == (TcView { ret: t@, ..old(self)@ }),
    {
        self.current_return_type = t;
    }

    fn add_struct(&mut self, name: String, info: StructInfo)
        ensures
            final(self)@ == (TcView { structs: old(self)@.structs.push((name@, info@)), ..old(self)@ }),
    {
        let ghost before = self@;
        self.structs.push((name, info));
        proof {
            assert(self@.structs =~= before.structs.push((name@, info@)));
        }
    }

    fn add_function(&mut self, name: String, sig: FuncSignature)
        ensures
            final(self)@ == (TcView { functions: old(self)@.functions.push((name@, sig@)), ..old(self)@ }),
    {
        let ghost before = self@;
        self.functions.push((name, sig));
        proof {
            assert(self@.functions =~= before.functions.push((name@, sig@)));
        }
    }

    fn add_method(&mut self, target: String, name: String, sig: FuncSignature)
        ensures
            final(self)@ == (TcView { methods: old(self)@.methods.push(((target@, name@), sig@)), ..old(self)@ }),
    {
        let ghost before = self@;
        self.methods.push(((target, name), sig));
        proof {
            assert(self@.methods =~= before.methods.push(((target@, name@), sig@)));
        }
    }

    /// The signature of the method `method` of the struct `target`.
    fn find_method(&self, target: &String, method: &String) -> (r: Option<FuncSignature>)
        ensures
            match r {
                Some(s) => find_last(self@.methods, (target@, method@)) == Some(s@),
                None => find_last(self@.methods, (target@, method@)) is None,
            },
    {
        let ghost sv = self@.methods;
        let ghost k = (target@, method@);
        let mut i = self.methods.len();
        while i > 0
            invariant
                i <= self.methods@.len(),
                sv == self@.methods,
                k == (target@, method@),
                forall|j: int| i <= j < self.methods@.len() ==> #[trigger] sv[j].0 != k,
            decreases i,
        {
            i = i - 1;
            if self.methods[i].0.0 == *target && self.methods[i].0.1 == *method {
                proof {
                    lemma_find_last_at(sv, k, i as int);
                }
                return Some(self.methods[i].1.duplicate());
            }
        }
        proof {
            lemma_find_last_none(sv, k);
        }
        None
    }
}

} // verus!
