//! The types of expressions.
use vstd::prelude::*;
use crate::span::Span;
use crate::ast::{Expr, ExprKind, BinaryOp, UnaryOp, ExprView, ExprKindView, expr_view, exprs_view, field_inits_view, lemma_exprs_view, lemma_field_inits_view};
use crate::types::{Type, TypeView, type_text};
use crate::text::{push_str, str_is};
use crate::typecheck::{TypeChecker, TypeError, TypeErrorView, TcView, compatible, binary_type, struct_of, names_field, first_missing, mutable_name_error, numeric, tc_expr, tc_elems, tc_any_args, tc_call_args, tc_method_args, tc_init_fields, lemma_tc_expr, lemma_tc_elems, lemma_tc_any_args, lemma_tc_call_args, lemma_tc_method_args, lemma_tc_init_fields, types_compatible, find_last, types_view, lookup_scopes, op_text};

verus! {

pub open spec fn ty_res(r: Result<Type, TypeError>) -> Result<TypeView, TypeErrorView> {
    match r {
        Ok(t) => Ok(t@),
        Err(e) => Err(e@),
    }
}

pub open spec fn unit_res(r: Result<(), TypeError>) -> Result<(), TypeErrorView> {
    match r {
        Ok(_) => Ok(()),
        Err(e) => Err(e@),
    }
}

fn mismatch_error(expected: &str, found: String, span: Span) -> (r: TypeError)
    ensures
        r@ == (TypeErrorView::Mismatch { expected: expected@, found: found@, span }),
{
    TypeError::Mismatch { expected: String::from_str(expected), found, span }
}

fn op_name(op: BinaryOp) -> (r: &'static str)
    ensures
        r@ == op_text(op),
{
    match op {
        BinaryOp::Add => "Add",
        BinaryOp::Sub => "Sub",
        BinaryOp::Mul => "Mul",
        BinaryOp::Div => "Div",
        BinaryOp::Mod => "Mod",
        BinaryOp::Equal => "Equal",
        BinaryOp::NotEqual => "NotEqual",
        BinaryOp::Less => "Less",
        BinaryOp::LessEq => "LessEq",
        BinaryOp::Greater => "Greater",
        BinaryOp::GreaterEq => "GreaterEq",
    }
}

fn is_numeric(t: &Type) -> (r: bool)
    ensures
        r == numeric(t@),
{
    match t {
        Type::Purna64 | Type::Ansha64 => true,
        _ => false,
    }
}

fn is_unknown(t: &Type) -> (r: bool)
    ensures
        r == (t@ == TypeView::Unknown),
{
    match t {
        Type::Unknown => true,
        _ => false,
    }
}

/// The result of a binary operator on operands of types `l` and `r`.
pub fn binary_result(op: BinaryOp, l: Type, r: Type, span: Span) -> (res: Result<Type, TypeError>)
    ensures
        ty_res(res) == binary_type(op, l@, r@, span),
{
    let lu = is_unknown(&l);
    let ru = is_unknown(&r);
    match op {
        BinaryOp::Add | BinaryOp::Sub | BinaryOp::Mul | BinaryOp::Div | BinaryOp::Mod => {
            if (l.same(&r) && is_numeric(&l)) || lu || ru {
                if !lu {
                    Ok(l)
                } else {
                    Ok(r)
                }
            } else if op == BinaryOp::Add && (matches!(l, Type::Sutra) || matches!(r, Type::Sutra)) {
                Ok(Type::Sutra)
            } else {
                let ln = l.name();
                let rn = r.name();
                let mut expected = String::from_str("समाना संख्या (Compatible numbers), किन्तु '");
                push_str(&mut expected, ln.as_str());
                push_str(&mut expected, "' एवं '");
                push_str(&mut expected, rn.as_str());
                push_str(&mut expected, "'");
                let mut found = l.name();
                push_str(&mut found, " ");
                push_str(&mut found, op_name(op));
                Err(TypeError::Mismatch { expected, found, span })
            }
        },
        BinaryOp::Equal | BinaryOp::NotEqual => {
            if types_compatible(&l, &r) {
                Ok(Type::Dvaidha)
            } else {
                let ln = l.name();
                let rn = r.name();
                let mut expected = String::from_str("समानप्रकारौ (Matching types), किन्तु '");
                push_str(&mut expected, ln.as_str());
                push_str(&mut expected, "' एवं '");
                push_str(&mut expected, rn.as_str());
                push_str(&mut expected, "'");
                let mut found = l.name();
                push_str(&mut found, " == ");
                push_str(&mut found, rn.as_str());
                Err(TypeError::Mismatch { expected, found, span })
            }
        },
        _ => {
            if (l.same(&r) && is_numeric(&l)) || lu || ru {
                Ok(Type::Dvaidha)
            } else {
                let rn = r.name();
                let mut found = l.name();
                push_str(&mut found, " एवं ");
                push_str(&mut found, rn.as_str());
                Err(mismatch_error("तुलनीया संख्या (Comparable numbers)", found, span))
            }
        },
    }
}

/// The struct that a value of type `t` is (directly or behind a reference).
fn struct_name_of(t: &Type) -> (r: Option<String>)
    ensures
        match r {
            Some(n) => struct_of(t@) == Some(n@),
            None => struct_of(t@) is None,
        },
{
    proof {
        reveal_with_fuel(crate::types::type_view, 2);
    }
    match t {
        Type::Struct(n) => {
            let c = n.clone();
            proof {
                assert(c@ == n@);
            }
            Some(c)
        },
        Type::Reference(inner) => match &**inner {
            Type::Struct(n) => Some(n.clone()),
            _ => None,
        },
        Type::MutReference(inner) => match &**inner {
            Type::Struct(n) => Some(n.clone()),
            _ => None,
        },
        _ => None,
    }
}

/// Whether a struct literal's fields give `name`.
fn names_in(fields: &Vec<(String, Expr)>, name: &String) -> (r: bool)
    ensures
        r == names_field(field_inits_view(fields@), name@),
{
    proof {
        lemma_field_inits_view(fields@);
    }
    let mut i: usize = 0;
    while i < fields.len()
        invariant
            i <= fields@.len(),
            field_inits_view(fields@).len() == fields@.len(),
            forall|j: int| 0 <= j < fields@.len() ==> #[trigger] field_inits_view(fields@)[j] == (fields@[j].0@, expr_view(fields@[j].1)),
            forall|j: int| 0 <= j < i ==> fields@[j].0@ != name@,
        decreases fields.len() - i,
    {
        if fields[i].0 == *name {
            proof {
                assert(field_inits_view(fields@)[i as int].0 == name@);
            }
            return true;
        }
        i = i + 1;
    }
    proof {
        assert forall|j: int| 0 <= j < field_inits_view(fields@).len() implies #[trigger] field_inits_view(fields@)[j].0 != name@ by {
            assert(field_inits_view(fields@)[j] == (fields@[j].0@, expr_view(fields@[j].1)));
        }
    }
    false
}

impl TypeChecker {
    /// `Some` with the error of a mutable use of `target` when it names an
    /// immutable variable.
    fn mutable_use_error(&self, target: &Expr, span: Span) -> (r: Option<TypeError>)
        ensures
            match r {
                Some(e) => mutable_name_error(self@, expr_view(*target), span) == Some(e@),
                None => mutable_name_error(self@, expr_view(*target), span) is None,
            },
    {
        match &target.kind {
            ExprKind::Identifier(name) => match self.lookup_var(name) {
                Some(info) => if !info.is_mut {
                    Some(TypeError::CannotMutateImmutable { name: name.clone(), span })
                } else {
                    None
                },
                None => None,
            },
            _ => None,
        }
    }

    /// The type of an expression.
    pub fn type_of(&self, e: &Expr) -> (r: Result<Type, TypeError>)
        ensures
            ty_res(r) == tc_expr(self@, expr_view(*e)),
        decreases e, 2int,
    {
        proof {
            lemma_tc_expr(self@, expr_view(*e));
        }
        let ghost st = self@;
        match &e.kind {
            ExprKind::DevanagariInteger(_, _) => Ok(Type::Purna64),
            ExprKind::DevanagariFloat(_) => Ok(Type::Ansha64),
            ExprKind::StringLiteral(_) => Ok(Type::Sutra),
            ExprKind::BoolLiteral(_) => Ok(Type::Dvaidha),
            ExprKind::ArrayLiteral(elems) => {
                proof {
                    lemma_exprs_view(elems@);
                }
                if elems.len() == 0 {
                    return Ok(Type::SoochiAny);
                }
                proof {
                    assert(decreases_to!(*e => e.kind));
                    assert(decreases_to!(e.kind => e.kind->ArrayLiteral_0));
                    assert(decreases_to!(*elems => elems@));
                    assert(decreases_to!(elems@ => elems@[0]));
                }
                let first = match self.type_of(&elems[0]) {
                    Ok(t) => t,
                    Err(err) => {
                        return Err(err);
                    },
                };
                let ghost ev = exprs_view(elems@);
                let mut i: usize = 1;
                while i < elems.len()
                    invariant
                        1 <= i <= elems@.len(),
                        st == self@,
                        ev == exprs_view(elems@),
                        ev.len() == elems@.len(),
                        forall|j: int| 0 <= j < elems@.len() ==> #[trigger] ev[j] == expr_view(elems@[j]),
                        e.kind == ExprKind::ArrayLiteral(*elems),
                        tc_elems(st, first@, ev, 1) == tc_elems(st, first@, ev, i as int),
                        tc_expr(st, expr_view(*e)) == (match tc_elems(st, first@, ev, 1) {
                            Err(err) => Err(err),
                            Ok(_) => Ok(TypeView::Soochi(Box::new(first@))),
                        }),
                    decreases elems.len() - i,
                {
                    proof {
                        lemma_tc_elems(st, first@, ev, i as int);
                        assert(decreases_to!(*e => e.kind));
                        assert(decreases_to!(e.kind => e.kind->ArrayLiteral_0));
                        assert(decreases_to!(*elems => elems@));
                        assert(decreases_to!(elems@ => elems@[i as int]));
                    }
                    let t = match self.type_of(&elems[i]) {
                        Ok(t) => t,
                        Err(err) => {
                            return Err(err);
                        },
                    };
                    if !types_compatible(&first, &t) {
                        return Err(TypeError::Mismatch { expected: first.name(), found: t.name(), span: elems[i].span });
                    }
                    i = i + 1;
                }
                proof {
                    lemma_tc_elems(st, first@, ev, i as int);
                }
                Ok(Type::Soochi(Box::new(first)))
            },
            ExprKind::Index { target, index } => {
                let tt = match self.type_of(target) {
                    Ok(t) => t,
                    Err(err) => {
                        return Err(err);
                    },
                };
                let it = match self.type_of(index) {
                    Ok(t) => t,
                    Err(err) => {
                        return Err(err);
                    },
                };
                match it {
                    Type::Purna64 | Type::Unknown => {},
                    _ => {
                        return Err(mismatch_error("पूर्ण६४ (Integer index)", it.name(), index.span));
                    },
                }
                match tt {
                    Type::Soochi(elem) => Ok(*elem),
                    Type::SoochiAny => Ok(Type::Unknown),
                    Type::Sutra => Ok(Type::Sutra),
                    other => Err(mismatch_error("सूची वा सूत्र (List or String)", other.name(), target.span)),
                }
            },
            ExprKind::Identifier(name) => match self.lookup_var(name) {
                Some(info) => Ok(info.ty),
                None => Err(TypeError::UndefinedVar { name: name.clone(), span: e.span }),
            },
            ExprKind::Unary { op, expr: inner } => {
                let t = match self.type_of(inner) {
                    Ok(t) => t,
                    Err(err) => {
                        return Err(err);
                    },
                };
                match op {
                    UnaryOp::Neg => if is_numeric(&t) {
                        Ok(t)
                    } else {
                        Err(mismatch_error("संख्या (Number)", t.name(), e.span))
                    },
                    UnaryOp::Not => match t {
                        Type::Dvaidha => Ok(Type::Dvaidha),
                        _ => Err(mismatch_error("द्वैध (Boolean)", t.name(), e.span)),
                    },
                }
            },
            ExprKind::Borrow { is_mut, expr: inner } => {
                let t = match self.type_of(inner) {
                    Ok(t) => t,
                    Err(err) => {
                        return Err(err);
                    },
                };
                if *is_mut {
                    match self.mutable_use_error(inner, e.span) {
                        Some(err) => Err(err),
                        None => Ok(Type::MutReference(Box::new(t))),
                    }
                } else {
                    Ok(Type::Reference(Box::new(t)))
                }
            },
            ExprKind::Binary { left, op, right } => {
                let l = match self.type_of(left) {
                    Ok(t) => t,
                    Err(err) => {
                        return Err(err);
                    },
                };
                let r = match self.type_of(right) {
                    Ok(t) => t,
                    Err(err) => {
                        return Err(err);
                    },
                };
                binary_result(*op, l, r, e.span)
            },
            ExprKind::Call { callee, args } => self.type_of_call(e, callee, args),
            ExprKind::FieldAccess { target, field } => {
                let t = match self.type_of(target) {
                    Ok(t) => t,
                    Err(err) => {
                        return Err(err);
                    },
                };
                let sname = match struct_name_of(&t) {
                    Some(n) => n,
                    None => {
                        return Err(mismatch_error("संरचना (Struct)", t.name(), e.span));
                    },
                };
                let info = match self.find_struct(&sname) {
                    Some(i) => i,
                    None => {
                        return Err(TypeError::UndefinedStruct { name: sname, span: e.span });
                    },
                };
                match info.field_type(field) {
                    Some(ft) => Ok(ft),
                    None => Err(TypeError::UndefinedField { struct_name: sname, field: field.clone(), span: e.span }),
                }
            },
            ExprKind::MethodCall { target, method, args } => self.type_of_method_call(e, target, method, args),
            ExprKind::StructInit { name, fields } => self.type_of_struct_init(e, name, fields),
        }
    }

    /// A call `callee(args)`, the expression `e`.
    fn type_of_call(&self, e: &Expr, callee: &String, args: &Vec<Expr>) -> (r: Result<Type, TypeError>)
        requires
            e.kind == (ExprKind::Call { callee: *callee, args: *args }),
        ensures
            ty_res(r) == tc_expr(self@, expr_view(*e)),
        decreases e, 1int,
    {
        proof {
            lemma_tc_expr(self@, expr_view(*e));
            lemma_exprs_view(args@);
        }
        let ghost st = self@;
        let ghost av = exprs_view(args@);
        if str_is(callee.as_str(), "मुद्रय") {
            let mut i: usize = 0;
            while i < args.len()
                invariant
                    i <= args@.len(),
                    st == self@,
                    av == exprs_view(args@),
                    av.len() == args@.len(),
                    forall|j: int| 0 <= j < args@.len() ==> #[trigger] av[j] == expr_view(args@[j]),
                    e.kind == (ExprKind::Call { callee: *callee, args: *args }),
                    tc_any_args(st, av, 0) == tc_any_args(st, av, i as int),
                    tc_expr(st, expr_view(*e)) == (match tc_any_args(st, av, 0) {
                        Err(err) => Err(err),
                        Ok(_) => Ok(TypeView::Rikta),
                    }),
                decreases args.len() - i,
            {
                proof {
                    lemma_tc_any_args(st, av, i as int);
                    assert(decreases_to!(*e => e.kind));
                    assert(decreases_to!(e.kind => e.kind->Call_args));
                    assert(decreases_to!(*args => args@));
                    assert(decreases_to!(args@ => args@[i as int]));
                }
                match self.type_of(&args[i]) {
                    Ok(_) => {},
                    Err(err) => {
                        return Err(err);
                    },
                }
                i = i + 1;
            }
            proof {
                lemma_tc_any_args(st, av, i as int);
            }
            return Ok(Type::Rikta);
        }
        let sig = match self.find_function(callee) {
            Some(s) => s,
            None => {
                return Err(TypeError::UndefinedFunc { name: callee.clone(), span: e.span });
            },
        };
        if sig.params.len() != args.len() {
            return Err(TypeError::ArgCountMismatch { expected: sig.params.len(), found: args.len(), span: e.span });
        }
        let ghost pv = types_view(sig.params@);
        let mut i: usize = 0;
        while i < args.len()
            invariant
                i <= args@.len(),
                st == self@,
                av == exprs_view(args@),
                av.len() == args@.len(),
                sig.params@.len() == args@.len(),
                pv == types_view(sig.params@),
                forall|j: int| 0 <= j < args@.len() ==> #[trigger] av[j] == expr_view(args@[j]),
                e.kind == (ExprKind::Call { callee: *callee, args: *args }),
                tc_call_args(st, pv, av, 0) == tc_call_args(st, pv, av, i as int),
                tc_expr(st, expr_view(*e)) == (match tc_call_args(st, pv, av, 0) {
                    Err(err) => Err(err),
                    Ok(_) => Ok(sig@.ret),
                }),
            decreases args.len() - i,
        {
            proof {
                lemma_tc_call_args(st, pv, av, i as int);
                assert(decreases_to!(*e => e.kind));
                assert(decreases_to!(e.kind => e.kind->Call_args));
                assert(decreases_to!(*args => args@));
                assert(decreases_to!(args@ => args@[i as int]));
            }
            let t = match self.type_of(&args[i]) {
                Ok(t) => t,
                Err(err) => {
                    return Err(err);
                },
            };
            if !types_compatible(&sig.params[i], &t) {
                return Err(TypeError::Mismatch { expected: sig.params[i].name(), found: t.name(), span: args[i].span });
            }
            i = i + 1;
        }
        proof {
            lemma_tc_call_args(st, pv, av, i as int);
        }
        Ok(sig.return_type)
    }

    /// A method call `target.method(args)`, the expression `e`.
    fn type_of_method_call(&self, e: &Expr, target: &Box<Expr>, method: &String, args: &Vec<Expr>) -> (r: Result<Type, TypeError>)
        requires
            e.kind == (ExprKind::MethodCall { target: *target, method: *method, args: *args }),
        ensures
            ty_res(r) == tc_expr(self@, expr_view(*e)),
        decreases e, 1int,
    {
        proof {
            lemma_tc_expr(self@, expr_view(*e));
            lemma_exprs_view(args@);
        }
        let ghost st = self@;
        let ghost av = exprs_view(args@);
        let t = match self.type_of(target) {
            Ok(t) => t,
            Err(err) => {
                return Err(err);
            },
        };
        let sname = match struct_name_of(&t) {
            Some(n) => n,
            None => {
                return Err(mismatch_error("संरचना (Struct)", t.name(), e.span));
            },
        };
        let sig = match self.find_method(&sname, method) {
            Some(s) => s,
            None => {
                return Err(TypeError::UndefinedMethod { struct_name: sname, method: method.clone(), span: e.span });
            },
        };
        if sig.params.len() == 0 {
            return Err(TypeError::ArgCountMismatch { expected: 1, found: 0, span: e.span });
        }
        let takes_mut = match &sig.params[0] {
            Type::MutReference(_) => true,
            _ => false,
        };
        if takes_mut {
            match self.mutable_use_error(target, target.span) {
                Some(err) => {
                    return Err(err);
                },
                None => {},
            }
        }
        let expected = sig.params.len() - 1;
        if expected != args.len() {
            return Err(TypeError::ArgCountMismatch { expected, found: args.len(), span: e.span });
        }
        let ghost pv = types_view(sig.params@);
        let mut i: usize = 0;
        while i < args.len()
            invariant
                i <= args@.len(),
                st == self@,
                av == exprs_view(args@),
                av.len() == args@.len(),
                sig.params@.len() == args@.len() + 1,
                pv == types_view(sig.params@),
                forall|j: int| 0 <= j < args@.len() ==> #[trigger] av[j] == expr_view(args@[j]),
                e.kind == (ExprKind::MethodCall { target: *target, method: *method, args: *args }),
                tc_method_args(st, pv, av, 0) == tc_method_args(st, pv, av, i as int),
                tc_expr(st, expr_view(*e)) == (match tc_method_args(st, pv, av, 0) {
                    Err(err) => Err(err),
                    Ok(_) => Ok(sig@.ret),
                }),
            decreases args.len() - i,
        {
            proof {
                lemma_tc_method_args(st, pv, av, i as int);
                assert(decreases_to!(*e => e.kind));
                assert(decreases_to!(e.kind => e.kind->MethodCall_args));
                assert(decreases_to!(*args => args@));
                assert(decreases_to!(args@ => args@[i as int]));
            }
            let at = match self.type_of(&args[i]) {
                Ok(t) => t,
                Err(err) => {
                    return Err(err);
                },
            };
            if !sig.params[i + 1].same(&at) && !is_unknown(&at) {
                return Err(TypeError::Mismatch { expected: sig.params[i + 1].name(), found: at.name(), span: args[i].span });
            }
            i = i + 1;
        }
        proof {
            lemma_tc_method_args(st, pv, av, i as int);
        }
        Ok(sig.return_type)
    }

    /// A struct literal `name(fields)`, the expression `e`.
    fn type_of_struct_init(&self, e: &Expr, name: &String, fields: &Vec<(String, Expr)>) -> (r: Result<Type, TypeError>)
        requires
            e.kind == (ExprKind::StructInit { name: *name, fields: *fields }),
        ensures
            ty_res(r) == tc_expr(self@, expr_view(*e)),
        decreases e, 1int,
    {
        proof {
            lemma_tc_expr(self@, expr_view(*e));
            lemma_field_inits_view(fields@);
        }
        let ghost st = self@;
        let ghost fv = field_inits_view(fields@);
        let info = match self.find_struct(name) {
            Some(i) => i,
            None => {
                return Err(TypeError::UndefinedStruct { name: name.clone(), span: e.span });
            },
        };
        let mut i: usize = 0;
        while i < fields.len()
            invariant
                i <= fields@.len(),
                st == self@,
                fv == field_inits_view(fields@),
                fv.len() == fields@.len(),
                forall|j: int| 0 <= j < fields@.len() ==> #[trigger] fv[j] == (fields@[j].0@, expr_view(fields@[j].1)),
                e.kind == (ExprKind::StructInit { name: *name, fields: *fields }),
                tc_init_fields(st, name@, info@, fv, 0) == tc_init_fields(st, name@, info@, fv, i as int),
                tc_expr(st, expr_view(*e)) == (match tc_init_fields(st, name@, info@, fv, 0) {
                    Err(err) => Err(err),
                    Ok(_) => match first_missing(info@.field_order, fv, 0) {
                        Some(f) => Err(TypeErrorView::MissingStructField { struct_name: name@, field: f, span: e.span }),
                        None => Ok(TypeView::Struct(name@)),
                    },
                }),
            decreases fields.len() - i,
        {
            proof {
                lemma_tc_init_fields(st, name@, info@, fv, i as int);
                assert(decreases_to!(*e => e.kind));
                assert(decreases_to!(e.kind => e.kind->StructInit_fields));
                assert(decreases_to!(*fields => fields@));
                assert(decreases_to!(fields@ => fields@[i as int]));
                assert(decreases_to!(fields@[i as int] => fields@[i as int].1));
            }
            let t = match self.type_of(&fields[i].1) {
                Ok(t) => t,
                Err(err) => {
                    return Err(err);
                },
            };
            let ft = match info.field_type(&fields[i].0) {
                Some(ft) => ft,
                None => {
                    return Err(TypeError::UndefinedField { struct_name: name.clone(), field: fields[i].0.clone(), span: fields[i].1.span });
                },
            };
            if !types_compatible(&ft, &t) {
                return Err(TypeError::Mismatch { expected: ft.name(), found: t.name(), span: fields[i].1.span });
            }
            i = i + 1;
        }
        proof {
            lemma_tc_init_fields(st, name@, info@, fv, i as int);
        }
        let mut j: usize = 0;
        while j < info.field_order.len()
            invariant
                j <= info.field_order@.len(),
                st == self@,
                fv == field_inits_view(fields@),
                first_missing(info@.field_order, fv, 0) == first_missing(info@.field_order, fv, j as int),
                tc_init_fields(st, name@, info@, fv, 0) == Ok::<(), TypeErrorView>(()),
                tc_expr(st, expr_view(*e)) == (match first_missing(info@.field_order, fv, 0) {
                    Some(f) => Err(TypeErrorView::MissingStructField { struct_name: name@, field: f, span: e.span }),
                    None => Ok(TypeView::Struct(name@)),
                }),
            decreases info.field_order.len() - j,
        {
            if !names_in(fields, &info.field_order[j]) {
                return Err(TypeError::MissingStructField { struct_name: name.clone(), field: info.field_order[j].clone(), span: e.span });
            }
            j = j + 1;
        }
        Ok(Type::Struct(name.clone()))
    }
}

} // verus!
