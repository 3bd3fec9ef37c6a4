//! The checker's walk over expressions, statements and programs.
use vstd::prelude::*;
use crate::span::Span;
use crate::ast::{Program, TopLevelItem, FunctionDecl, Param, Statement, Expr, ExprKind, BinaryOp, ExprView, StmtView, expr_view, exprs_view, stmt_view, stmts_view, field_inits_view, function_view, item_view, param_view, ann_view, lemma_exprs_view, lemma_stmts_view, lemma_field_inits_view};
use crate::types::{Type, TypeView, ann_type, is_copy_spec};
use crate::text::str_is;
use crate::borrowck::{BorrowChecker, BorrowError, BorrowErrorView, BindingState, BindView, BcView, BcRes, locate, binding, set_binding, push_temp, sat_inc, bc_borrow_name, bc_use, reads_all, bc_read, bc_read_or_move, bc_read_args, bc_move_args, bc_move_fields, infer, decl_type, bc_assign_target, bc_internal, release, persists_borrow, bc_stmt, bc_block, bc_params, bc_function, bc_functions, bc_items, bc_program, bc_define, bc_enter, bc_exit, lemma_locate};

verus! {

pub open spec fn bres(r: Result<(), BorrowError>) -> Result<(), BorrowErrorView> {
    match r {
        Ok(_) => Ok(()),
        Err(e) => Err(e@),
    }
}

/// Whether the built-in function `callee` only reads its arguments.
fn reads_all_args(callee: &str) -> (r: bool)
    ensures
        r == reads_all(callee@),
{
    str_is(callee, "मुद्रय") || str_is(callee, "सूची_सृज") || str_is(callee, "सूत्र_दैर्घ्यम्") || str_is(callee, "सूत्र_वर्ण")
        || str_is(callee, "सूत्र_अंश") || str_is(callee, "सूची_दैर्घ्यम्") || str_is(callee, "लॉग") || str_is(callee, "घाताङ्क")
        || str_is(callee, "वर्गमूल") || str_is(callee, "पूर्णाङ्क") || str_is(callee, "अंशाङ्क") || str_is(callee, "संचिका_पठ")
        || str_is(callee, "संचिका_लेख") || str_is(callee, "संचिका_लिख") || str_is(callee, "संचिका_विद्यते")
        || str_is(callee, "सूत्र_विभाजय") || str_is(callee, "सूची_संयोग") || str_is(callee, "संख्या_पाठ") || str_is(callee, "सूत्र_रूप")
        || str_is(callee, "रेलू") || str_is(callee, "महत्तम") || str_is(callee, "न्यूनतम")
}

/// Whether `args` is the list of arguments or elements of `e`.
pub open spec fn list_of(e: Expr, args: Vec<Expr>) -> bool {
    ||| (e.kind is Call && e.kind->Call_args == args)
    ||| (e.kind is MethodCall && e.kind->MethodCall_args == args)
    ||| (e.kind is ArrayLiteral && e.kind->ArrayLiteral_0 == args)
}

proof fn lemma_list_decreases(e: Expr, args: Vec<Expr>, i: int)
    requires
        list_of(e, args),
        0 <= i < args@.len(),
    ensures
        decreases_to!(e => args@[i]),
{
    assert(decreases_to!(args => args@));
    assert(decreases_to!(args@ => args@[i]));
    if e.kind is Call {
        assert(decreases_to!(e => e.kind));
        assert(decreases_to!(e.kind => e.kind->Call_args));
    } else if e.kind is MethodCall {
        assert(decreases_to!(e => e.kind));
        assert(decreases_to!(e.kind => e.kind->MethodCall_args));
    } else {
        assert(decreases_to!(e => e.kind));
        assert(decreases_to!(e.kind => e.kind->ArrayLiteral_0));
    }
}

impl BorrowChecker {
    /// The type that the checker takes an initializer to have.
    pub fn infer_type(&self, e: &Expr) -> (r: Type)
        ensures
            r@ == infer(expr_view(*e)),
        decreases e,
    {
        match &e.kind {
            ExprKind::DevanagariInteger(_, _) => Type::Purna64,
            ExprKind::DevanagariFloat(_) => Type::Ansha64,
            ExprKind::StringLiteral(_) => Type::Sutra,
            ExprKind::BoolLiteral(_) => Type::Dvaidha,
            ExprKind::StructInit { name, fields: _ } => Type::Struct(name.clone()),
            ExprKind::Call { callee, args: _ } => {
                let c = callee.as_str();
                if str_is(c, "सूची_दैर्घ्यम्") || str_is(c, "सूत्र_दैर्घ्यम्") || str_is(c, "पूर्णाङ्क") {
                    Type::Purna64
                } else if str_is(c, "लॉग") || str_is(c, "घाताङ्क") || str_is(c, "वर्गमूल") || str_is(c, "अंशाङ्क") || str_is(c, "संख्या_पाठ") {
                    Type::Ansha64
                } else if str_is(c, "संचिका_विद्यते") {
                    Type::Dvaidha
                } else if str_is(c, "सूत्र_वर्ण") || str_is(c, "सूत्र_अंश") || str_is(c, "संचिका_पठ") || str_is(c, "सूत्र_रूप") || str_is(c, "सूची_संयोग") {
                    Type::Sutra
                } else if str_is(c, "सूची_सृज") || str_is(c, "सूत्र_विभाजय") {
                    Type::SoochiAny
                } else {
                    Type::Unknown
                }
            },
            ExprKind::Binary { left: _, op, right: _ } => match op {
                BinaryOp::Equal | BinaryOp::NotEqual | BinaryOp::Less | BinaryOp::LessEq | BinaryOp::Greater
                | BinaryOp::GreaterEq => Type::Dvaidha,
                _ => Type::Unknown,
            },
            ExprKind::Borrow { is_mut, expr: inner } => {
                let t = self.infer_type(inner);
                if *is_mut {
                    Type::MutReference(Box::new(t))
                } else {
                    Type::Reference(Box::new(t))
                }
            },
            _ => Type::Unknown,
        }
    }

    /// A use of `name` at `span` that reads it.
    fn use_var(&mut self, name: &String, span: Span) -> (r: Result<(), BorrowError>)
        ensures
            (final(self)@, bres(r)) == bc_use(old(self)@, name@, span),
    {
        proof {
            lemma_locate(self@.scopes, name@);
        }
        match self.locate_var(name) {
            Some((si, ei)) => {
                let b = self.binding_at(si, ei);
                match b.moved_at {
                    Some(m) => Err(BorrowError::UseAfterMove { name: name.clone(), span, moved_at: m }),
                    None => Ok(()),
                }
            },
            None => Ok(()),
        }
    }

    /// A borrow of the variable `name` at `span`.
    fn borrow_name(&mut self, name: &String, is_mut: bool, span: Span) -> (r: Result<(), BorrowError>)
        ensures
            (final(self)@, bres(r)) == bc_borrow_name(old(self)@, name@, is_mut, span),
    {
        proof {
            lemma_locate(self@.scopes, name@);
        }
        match self.locate_var(name) {
            Some((si, ei)) => {
                let b = self.binding_at(si, ei);
                if b.moved_at.is_some() {
                    return Err(BorrowError::BorrowMoved { name: name.clone(), span });
                }
                if is_mut {
                    if b.shared_borrows > 0 {
                        return Err(BorrowError::MutBorrowWhileImmutablyBorrowed { name: name.clone(), span });
                    }
                    if b.is_mutably_borrowed {
                        return Err(BorrowError::AlreadyMutablyBorrowed { name: name.clone(), span });
                    }
                    let nb = BindingState { is_mutably_borrowed: true, ..b };
                    self.set_binding_at(si, ei, nb);
                } else {
                    if b.is_mutably_borrowed {
                        return Err(BorrowError::BorrowWhileMutablyBorrowed { name: name.clone(), span });
                    }
                    let shared = if b.shared_borrows < usize::MAX {
                        b.shared_borrows + 1
                    } else {
                        b.shared_borrows
                    };
                    let nb = BindingState { shared_borrows: shared, ..b };
                    self.set_binding_at(si, ei, nb);
                }
                self.push_temp(name.clone(), is_mut);
                Ok(())
            },
            None => Ok(()),
        }
    }

    /// An expression that is read.
    pub fn check_expr_read(&mut self, e: &Expr) -> (r: Result<(), BorrowError>)
        ensures
            (final(self)@, bres(r)) == bc_read(old(self)@, expr_view(*e)),
        decreases e, 2int,
    {
        match &e.kind {
            ExprKind::Identifier(name) => self.use_var(name, e.span),
            ExprKind::Borrow { is_mut, expr: inner } => match &inner.kind {
                ExprKind::Identifier(name) => {
                    proof {
                        assert(expr_view(**inner).kind == crate::ast::ExprKindView::Identifier(name@));
                    }
                    self.borrow_name(name, *is_mut, e.span)
                },
                _ => {
                    proof {
                        assert(!(expr_view(**inner).kind is Identifier));
                    }
                    self.check_expr_read(inner)
                },
            },
            ExprKind::Binary { left, op: _, right } => {
                match self.check_expr_read(left) {
                    Ok(_) => {},
                    Err(err) => {
                        return Err(err);
                    },
                }
                self.check_expr_read(right)
            },
            ExprKind::Unary { op: _, expr: inner } => self.check_expr_read(inner),
            ExprKind::Call { callee, args } => {
                proof {
                    lemma_exprs_view(args@);
                }
                if reads_all_args(callee.as_str()) {
                    self.read_args(e, args)
                } else if str_is(callee.as_str(), "सूची_संयोजय") {
                    if args.len() > 0 {
                        proof {
                            lemma_list_decreases(*e, *args, 0);
                        }
                        match self.check_expr_read(&args[0]) {
                            Ok(_) => {},
                            Err(err) => {
                                return Err(err);
                            },
                        }
                        self.move_args(e, args, 1)
                    } else {
                        Ok(())
                    }
                } else {
                    self.move_args(e, args, 0)
                }
            },
            ExprKind::FieldAccess { target, field: _ } => self.check_expr_read(target),
            ExprKind::MethodCall { target, method: _, args } => {
                match self.check_expr_read(target) {
                    Ok(_) => {},
                    Err(err) => {
                        return Err(err);
                    },
                }
                self.move_args(e, args, 0)
            },
            ExprKind::StructInit { name: _, fields } => self.move_fields(e, fields),
            ExprKind::ArrayLiteral(elems) => self.move_args(e, elems, 0),
            ExprKind::Index { target, index } => {
                match self.check_expr_read(target) {
                    Ok(_) => {},
                    Err(err) => {
                        return Err(err);
                    },
                }
                self.check_expr_read(index)
            },
            _ => Ok(()),
        }
    }

    /// An expression that is read, or moved when it names a variable whose
    /// type is not copied.
    pub fn check_expr_read_or_move(&mut self, e: &Expr) -> (r: Result<(), BorrowError>)
        ensures
            (final(self)@, bres(r)) == bc_read_or_move(old(self)@, expr_view(*e)),
        decreases e, 3int,
    {
        match &e.kind {
            ExprKind::Identifier(name) => {
                proof {
                    lemma_locate(self@.scopes, name@);
                }
                match self.locate_var(name) {
                    Some((si, ei)) => {
                        let b = self.binding_at(si, ei);
                        match b.moved_at {
                            Some(m) => Err(BorrowError::UseAfterMove { name: name.clone(), span: e.span, moved_at: m }),
                            None => {
                                if !b.ty.is_copy() {
                                    let nb = BindingState { moved_at: Some(e.span), ..b };
                                    self.set_binding_at(si, ei, nb);
                                }
                                Ok(())
                            },
                        }
                    },
                    None => Ok(()),
                }
            },
            _ => self.check_expr_read(e),
        }
    }

    /// The arguments of `e` from the first on, read.
    fn read_args(&mut self, e: &Expr, args: &Vec<Expr>) -> (r: Result<(), BorrowError>)
        requires
            list_of(*e, *args),
        ensures
            (final(self)@, bres(r)) == bc_read_args(old(self)@, exprs_view(args@), 0),
        decreases e, 1int,
    {
        proof {
            lemma_exprs_view(args@);
        }
        let ghost av = exprs_view(args@);
        let ghost st0 = self@;
        let mut i: usize = 0;
        while i < args.len()
            invariant
                i <= args@.len(),
                av == exprs_view(args@),
                av.len() == args@.len(),
                forall|j: int| 0 <= j < args@.len() ==> #[trigger] av[j] == expr_view(args@[j]),
                list_of(*e, *args),
                st0 == old(self)@,
                bc_read_args(st0, av, 0) == bc_read_args(self@, av, i as int),
            decreases args.len() - i,
        {
            proof {
                lemma_list_decreases(*e, *args, i as int);
            }
            match self.check_expr_read(&args[i]) {
                Ok(_) => {},
                Err(err) => {
                    return Err(err);
                },
            }
            i = i + 1;
        }
        Ok(())
    }

    /// The arguments of `e` from the `start`-th on, read or moved.
    fn move_args(&mut self, e: &Expr, args: &Vec<Expr>, start: usize) -> (r: Result<(), BorrowError>)
        requires
            list_of(*e, *args),
        ensures
            (final(self)@, bres(r)) == bc_move_args(old(self)@, exprs_view(args@), start as int),
        decreases e, 1int,
    {
        proof {
            lemma_exprs_view(args@);
        }
        let ghost av = exprs_view(args@);
        let ghost st0 = self@;
        let mut i: usize = start;
        if i > args.len() {
            return Ok(());
        }
        while i < args.len()
            invariant
                start <= i <= args@.len(),
                av == exprs_view(args@),
                av.len() == args@.len(),
                forall|j: int| 0 <= j < args@.len() ==> #[trigger] av[j] == expr_view(args@[j]),
                list_of(*e, *args),
                st0 == old(self)@,
                bc_move_args(st0, av, start as int) == bc_move_args(self@, av, i as int),
            decreases args.len() - i,
        {
            proof {
                lemma_list_decreases(*e, *args, i as int);
            }
            match self.check_expr_read_or_move(&args[i]) {
                Ok(_) => {},
                Err(err) => {
                    return Err(err);
                },
            }
            i = i + 1;
        }
        Ok(())
    }

    /// The fields of the struct literal `e`, read or moved.
    fn move_fields(&mut self, e: &Expr, fields: &Vec<(String, Expr)>) -> (r: Result<(), BorrowError>)
        requires
            e.kind is StructInit && e.kind->StructInit_fields == *fields,
        ensures
            (final(self)@, bres(r)) == bc_move_fields(old(self)@, field_inits_view(fields@), 0),
        decreases e, 1int,
    {
        proof {
            lemma_field_inits_view(fields@);
        }
        let ghost fv = field_inits_view(fields@);
        let ghost st0 = self@;
        let mut i: usize = 0;
        while i < fields.len()
            invariant
                i <= fields@.len(),
                fv == field_inits_view(fields@),
                fv.len() == fields@.len(),
                forall|j: int| 0 <= j < fields@.len() ==> #[trigger] fv[j] == (fields@[j].0@, expr_view(fields@[j].1)),
                e.kind is StructInit && e.kind->StructInit_fields == *fields,
                st0 == old(self)@,
                bc_move_fields(st0, fv, 0) == bc_move_fields(self@, fv, i as int),
            decreases fields.len() - i,
        {
            proof {
                assert(decreases_to!(*e => e.kind));
                assert(decreases_to!(e.kind => e.kind->StructInit_fields));
                assert(decreases_to!(*fields => fields@));
                assert(decreases_to!(fields@ => fields@[i as int]));
                assert(decreases_to!(fields@[i as int] => fields@[i as int].1));
            }
            match self.check_expr_read_or_move(&fields[i].1) {
                Ok(_) => {},
                Err(err) => {
                    return Err(err);
                },
            }
            i = i + 1;
        }
        Ok(())
    }
}

impl BorrowChecker {
    /// Whether assigning to `target` at `span` is allowed.
    fn check_assign_target(&mut self, target: &String, span: Span) -> (r: Option<BorrowError>)
        ensures
            final(self)@ == old(self)@,
            match r {
                Some(e) => bc_assign_target(old(self)@, target@, span) == Some(e@),
                None => bc_assign_target(old(self)@, target@, span) is None,
            },
    {
        proof {
            lemma_locate(self@.scopes, target@);
        }
        match self.locate_var(target) {
            Some((si, ei)) => {
                let b = self.binding_at(si, ei);
                match b.moved_at {
                    Some(m) => Some(BorrowError::UseAfterMove { name: target.clone(), span, moved_at: m }),
                    None => if b.shared_borrows > 0 || b.is_mutably_borrowed {
                        Some(BorrowError::MutateWhileBorrowed { name: target.clone(), span })
                    } else {
                        None
                    },
                }
            },
            None => None,
        }
    }

    /// A statement, before its borrows are released.
    fn check_statement_internal(&mut self, stmt: &Statement) -> (r: Result<(), BorrowError>)
        ensures
            (final(self)@, bres(r)) == bc_internal(old(self)@, stmt_view(*stmt)),
        decreases stmt, 1int,
    {
        match stmt {
            Statement::VarDecl { name, is_mut, type_ann, init, span: _ } => {
                let init_ty = match type_ann {
                    Some(ann) => Type::from_annotation(ann),
                    None => self.infer_type(init),
                };
                match self.check_expr_read_or_move(init) {
                    Ok(_) => {},
                    Err(e) => {
                        return Err(e);
                    },
                }
                self.define_var(name.clone(), init_ty, *is_mut);
                Ok(())
            },
            Statement::Assignment { target, value, span } => {
                match self.check_assign_target(target, *span) {
                    Some(e) => {
                        return Err(e);
                    },
                    None => {},
                }
                self.check_expr_read_or_move(value)
            },
            Statement::FieldAssignment { target, field: _, value, span } => {
                match self.check_assign_target(target, *span) {
                    Some(e) => {
                        return Err(e);
                    },
                    None => {},
                }
                self.check_expr_read_or_move(value)
            },
            Statement::If { condition, then_branch, else_branch, span: _ } => {
                match self.check_expr_read(condition) {
                    Ok(_) => {},
                    Err(e) => {
                        return Err(e);
                    },
                }
                self.enter_scope();
                match self.check_block(then_branch) {
                    Ok(_) => {},
                    Err(e) => {
                        return Err(e);
                    },
                }
                self.exit_scope();
                match else_branch {
                    Some(els) => {
                        self.enter_scope();
                        match self.check_block(els) {
                            Ok(_) => {},
                            Err(e) => {
                                return Err(e);
                            },
                        }
                        self.exit_scope();
                    },
                    None => {},
                }
                Ok(())
            },
            Statement::While { condition, body, span: _ } => {
                match self.check_expr_read(condition) {
                    Ok(_) => {},
                    Err(e) => {
                        return Err(e);
                    },
                }
                self.enter_scope();
                match self.check_block(body) {
                    Ok(_) => {},
                    Err(e) => {
                        return Err(e);
                    },
                }
                self.exit_scope();
                Ok(())
            },
            Statement::Return { value, span: _ } => match value {
                Some(v) => self.check_expr_read_or_move(v),
                None => Ok(()),
            },
            Statement::IndexAssignment { target, index, value, span: _ } => {
                match self.check_expr_read(target) {
                    Ok(_) => {},
                    Err(e) => {
                        return Err(e);
                    },
                }
                match self.check_expr_read(index) {
                    Ok(_) => {},
                    Err(e) => {
                        return Err(e);
                    },
                }
                self.check_expr_read_or_move(value)
            },
            Statement::Expr(e) => self.check_expr_read(e),
        }
    }

    /// Gives back the borrows `temps` from the `k`-th on.
    fn release_borrows(&mut self, temps: &Vec<(String, bool)>)
        ensures
            final(self)@ == release(old(self)@, temps@.map_values(|p: (String, bool)| (p.0@, p.1)), 0),
    {
        let ghost tv = temps@.map_values(|p: (String, bool)| (p.0@, p.1));
        let ghost st0 = self@;
        let mut k: usize = 0;
        while k < temps.len()
            invariant
                k <= temps@.len(),
                tv == temps@.map_values(|p: (String, bool)| (p.0@, p.1)),
                st0 == old(self)@,
                release(st0, tv, 0) == release(self@, tv, k as int),
            decreases temps.len() - k,
        {
            let name = &temps[k].0;
            let is_mut = temps[k].1;
            proof {
                lemma_locate(self@.scopes, name@);
            }
            match self.locate_var(name) {
                Some((si, ei)) => {
                    let b = self.binding_at(si, ei);
                    if is_mut {
                        let nb = BindingState { is_mutably_borrowed: false, ..b };
                        self.set_binding_at(si, ei, nb);
                    } else if b.shared_borrows > 0 {
                        let nb = BindingState { shared_borrows: b.shared_borrows - 1, ..b };
                        self.set_binding_at(si, ei, nb);
                    }
                },
                None => {},
            }
            k = k + 1;
        }
    }

    /// A statement: its check, then the borrows it took given back unless it
    /// keeps a reference in a variable.
    pub fn check_statement(&mut self, stmt: &Statement) -> (r: Result<(), BorrowError>)
        ensures
            (final(self)@, bres(r)) == bc_stmt(old(self)@, stmt_view(*stmt)),
        decreases stmt, 2int,
    {
        let res = self.check_statement_internal(stmt);
        let persisted = match stmt {
            Statement::VarDecl { name: _, is_mut: _, type_ann, init, span: _ } => {
                let t = match type_ann {
                    Some(ann) => Type::from_annotation(ann),
                    None => self.infer_type(init),
                };
                match t {
                    Type::Reference(_) | Type::MutReference(_) => true,
                    _ => false,
                }
            },
            _ => false,
        };
        let to_release = self.take_temps();
        if !persisted {
            self.release_borrows(&to_release);
        }
        res
    }

    /// Statements in turn, stopping at the first error.
    fn check_block(&mut self, stmts: &Vec<Statement>) -> (r: Result<(), BorrowError>)
        ensures
            (final(self)@, bres(r)) == bc_block(old(self)@, stmts_view(stmts@), 0),
        decreases stmts, 0int,
    {
        proof {
            lemma_stmts_view(stmts@);
        }
        let ghost sv = stmts_view(stmts@);
        let ghost st0 = self@;
        let mut i: usize = 0;
        while i < stmts.len()
            invariant
                i <= stmts@.len(),
                sv == stmts_view(stmts@),
                sv.len() == stmts@.len(),
                forall|j: int| 0 <= j < stmts@.len() ==> #[trigger] sv[j] == stmt_view(stmts@[j]),
                st0 == old(self)@,
                bc_block(st0, sv, 0) == bc_block(self@, sv, i as int),
            decreases stmts.len() - i,
        {
            proof {
                assert(decreases_to!(*stmts => stmts@));
                assert(decreases_to!(stmts@ => stmts@[i as int]));
            }
            match self.check_statement(&stmts[i]) {
                Ok(_) => {},
                Err(e) => {
                    return Err(e);
                },
            }
            i = i + 1;
        }
        Ok(())
    }

    /// A function (or method): its body in a new scope with its parameters.
    fn check_function(&mut self, f: &FunctionDecl) -> (r: Result<(), BorrowError>)
        ensures
            (final(self)@, bres(r)) == bc_function(old(self)@, function_view(*f)),
    {
        let ghost pv = function_view(*f).params;
        self.enter_scope();
        let ghost st1 = self@;
        let mut j: usize = 0;
        while j < f.params.len()
            invariant
                j <= f.params@.len(),
                pv == f.params@.map_values(|p: Param| param_view(p)),
                bc_params(st1, pv, 0) == bc_params(self@, pv, j as int),
            decreases f.params.len() - j,
        {
            let p = &f.params[j];
            self.define_var(p.name.clone(), Type::from_annotation(&p.type_ann), false);
            j = j + 1;
        }
        match self.check_block(&f.body) {
            Ok(_) => {},
            Err(e) => {
                return Err(e);
            },
        }
        self.exit_scope();
        Ok(())
    }

    /// Functions in turn.
    fn check_functions(&mut self, fs: &Vec<FunctionDecl>) -> (r: Result<(), BorrowError>)
        ensures
            (final(self)@, bres(r)) == bc_functions(old(self)@, fs@.map_values(|f: FunctionDecl| function_view(f)), 0),
    {
        let ghost fv = fs@.map_values(|f: FunctionDecl| function_view(f));
        let ghost st0 = self@;
        let mut j: usize = 0;
        while j < fs.len()
            invariant
                j <= fs@.len(),
                fv == fs@.map_values(|f: FunctionDecl| function_view(f)),
                st0 == old(self)@,
                bc_functions(st0, fv, 0) == bc_functions(self@, fv, j as int),
            decreases fs.len() - j,
        {
            match self.check_function(&fs[j]) {
                Ok(_) => {},
                Err(e) => {
                    return Err(e);
                },
            }
            j = j + 1;
        }
        Ok(())
    }

    /// A whole program, item by item.
    pub fn check_program(&mut self, program: &Program) -> (r: Result<(), BorrowError>)
        ensures
            (final(self)@, bres(r)) == bc_program(old(self)@, program@),
    {
        let ghost items = program@.items;
        let ghost st0 = self@;
        let mut i: usize = 0;
        while i < program.items.len()
            invariant
                i <= program.items@.len(),
                items == program@.items,
                items == program.items@.map_values(|it: TopLevelItem| item_view(it)),
                st0 == old(self)@,
                bc_items(st0, items, 0) == bc_items(self@, items, i as int),
            decreases program.items.len() - i,
        {
            let r = match &program.items[i] {
                TopLevelItem::Function(f) => self.check_function(f),
                TopLevelItem::Impl(b) => self.check_functions(&b.methods),
                TopLevelItem::Statement(s) => self.check_statement(s),
                _ => Ok(()),
            };
            match r {
                Ok(_) => {},
                Err(e) => {
                    return Err(e);
                },
            }
            i = i + 1;
        }
        Ok(())
    }
}

} // verus!
