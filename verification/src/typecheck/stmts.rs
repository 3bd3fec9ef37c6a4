//! Statements, functions and whole programs.
use vstd::prelude::*;
use crate::span::Span;
use crate::ast::{Program, TopLevelItem, StructDecl, FieldDecl, ImplBlock, FunctionDecl, Param, TypeAnnotation, Statement, Expr, StmtView, ItemView, FunctionView, ParamView, FieldView, StructView, ImplView, stmt_view, stmts_view, expr_view, function_view, struct_view, impl_view, item_view, param_view, field_view, ann_view, lemma_stmts_view};
use crate::types::{Type, TypeView, ann_type, type_text};
use crate::text::str_is;
use crate::typecheck::{TypeChecker, TypeError, TypeErrorView, TcView, StructInfo, StructInfoView, FuncSignature, SigView, types_view, compatible, assignable_struct_of, find_last, lookup_scopes, cond_ok, define, enter, exit, tc_stmt, tc_block, lemma_tc_stmt, lemma_tc_block, struct_info_of, fn_sig, method_sig, method_param_type, ret_type, collect_structs, collect_sigs, add_methods, define_params, define_method_params, tc_function, tc_method, tc_methods, check_items, tc_program, types_compatible};
use crate::typecheck::exprs::{ty_res, unit_res};

verus! {

/// The struct whose fields a variable of type `t` lets one assign.
fn assignable_struct_name(t: &Type) -> (r: Option<String>)
    ensures
        match r {
            Some(n) => assignable_struct_of(t@) == Some(n@),
            None => assignable_struct_of(t@) is None,
        },
{
    proof {
        reveal_with_fuel(crate::types::type_view, 2);
    }
    match t {
        Type::Struct(n) => {
            let c = n.clone();
            proof {
                assert(c@ == n@);
            }
            Some(c)
        },
        Type::MutReference(inner) => match &**inner {
            Type::Struct(n) => Some(n.clone()),
            _ => None,
        },
        _ => None,
    }
}

fn return_type_of(a: &Option<TypeAnnotation>) -> (r: Type)
    ensures
        r@ == ret_type(match *a {
            Some(x) => Some(ann_view(x)),
            None => None,
        }),
{
    match a {
        Some(x) => Type::from_annotation(x),
        None => Type::Rikta,
    }
}

impl TypeChecker {
    /// One statement.
    pub fn check_statement(&mut self, stmt: &Statement) -> (r: Result<(), TypeError>)
        ensures
            (final(self)@, unit_res(r)) == tc_stmt(old(self)@, stmt_view(*stmt)),
        decreases stmt, 2int,
    {
        proof {
            lemma_tc_stmt(self@, stmt_view(*stmt));
        }
        match stmt {
            Statement::VarDecl { name, is_mut, type_ann, init, span } => {
                let init_ty = match self.type_of(init) {
                    Ok(t) => t,
                    Err(e) => {
                        return Err(e);
                    },
                };
                match type_ann {
                    Some(ann) => {
                        let expected = Type::from_annotation(ann);
                        if !types_compatible(&expected, &init_ty) {
                            return Err(TypeError::Mismatch { expected: expected.name(), found: init_ty.name(), span: init.span });
                        }
                        self.define_var(name.clone(), expected, *is_mut, *span);
                    },
                    None => {
                        self.define_var(name.clone(), init_ty, *is_mut, *span);
                    },
                }
                Ok(())
            },
            Statement::Assignment { target, value, span } => {
                let info = match self.lookup_var(target) {
                    Some(i) => i,
                    None => {
                        return Err(TypeError::UndefinedVar { name: target.clone(), span: *span });
                    },
                };
                if !info.is_mut {
                    return Err(TypeError::CannotMutateImmutable { name: target.clone(), span: *span });
                }
                let t = match self.type_of(value) {
                    Ok(t) => t,
                    Err(e) => {
                        return Err(e);
                    },
                };
                if !types_compatible(&info.ty, &t) {
                    return Err(TypeError::Mismatch { expected: info.ty.name(), found: t.name(), span: value.span });
                }
                Ok(())
            },
            Statement::FieldAssignment { target, field, value, span } => {
                let info = match self.lookup_var(target) {
                    Some(i) => i,
                    None => {
                        return Err(TypeError::UndefinedVar { name: target.clone(), span: *span });
                    },
                };
                if !info.is_mut {
                    return Err(TypeError::CannotMutateImmutable { name: target.clone(), span: *span });
                }
                let sname = match assignable_struct_name(&info.ty) {
                    Some(n) => n,
                    None => {
                        return Err(TypeError::Mismatch {
                            expected: String::from_str("संरचना (Struct)"),
                            found: info.ty.name(),
                            span: *span,
                        });
                    },
                };
                let s_info = match self.find_struct(&sname) {
                    Some(i) => i,
                    None => {
                        return Err(TypeError::UndefinedStruct { name: sname, span: *span });
                    },
                };
                let ft = match s_info.field_type(field) {
                    Some(t) => t,
                    None => {
                        return Err(TypeError::UndefinedField { struct_name: sname, field: field.clone(), span: *span });
                    },
                };
                let t = match self.type_of(value) {
                    Ok(t) => t,
                    Err(e) => {
                        return Err(e);
                    },
                };
                if !types_compatible(&ft, &t) {
                    return Err(TypeError::Mismatch { expected: ft.name(), found: t.name(), span: value.span });
                }
                Ok(())
            },
            Statement::IndexAssignment { target, index, value, span } => {
                let tt = match self.type_of(target) {
                    Ok(t) => t,
                    Err(e) => {
                        return Err(e);
                    },
                };
                let it = match self.type_of(index) {
                    Ok(t) => t,
                    Err(e) => {
                        return Err(e);
                    },
                };
                match it {
                    Type::Purna64 | Type::Unknown => {},
                    _ => {
                        return Err(TypeError::Mismatch {
                            expected: String::from_str("पूर्ण६४ (Integer index)"),
                            found: it.name(),
                            span: index.span,
                        });
                    },
                }
                let t = match self.type_of(value) {
                    Ok(t) => t,
                    Err(e) => {
                        return Err(e);
                    },
                };
                match tt {
                    Type::Soochi(elem) => {
                        if !types_compatible(&elem, &t) {
                            return Err(TypeError::Mismatch { expected: elem.name(), found: t.name(), span: value.span });
                        }
                        Ok(())
                    },
                    Type::SoochiAny | Type::Unknown => Ok(()),
                    other => Err(TypeError::Mismatch {
                        expected: String::from_str("सूची (List)"),
                        found: other.name(),
                        span: *span,
                    }),
                }
            },
            Statement::If { condition, then_branch, else_branch, span: _ } => {
                let t = match self.type_of(condition) {
                    Ok(t) => t,
                    Err(e) => {
                        return Err(e);
                    },
                };
                match t {
                    Type::Dvaidha | Type::Purna64 | Type::Unknown => {},
                    _ => {
                        return Err(TypeError::Mismatch {
                            expected: String::from_str("द्वैध (Boolean)"),
                            found: t.name(),
                            span: condition.span,
                        });
                    },
                }
                self.enter_scope();
                match self.check_block(then_branch) {
                    Ok(_) => {},
                    Err(e) => {
                        return Err(e);
                    },
                }
                self.exit_scope();
                match else_branch {
                    Some(els) => {
                        self.enter_scope();
                        match self.check_block(els) {
                            Ok(_) => {},
                            Err(e) => {
                                return Err(e);
                            },
                        }
                        self.exit_scope();
                    },
                    None => {},
                }
                Ok(())
            },
            Statement::While { condition, body, span: _ } => {
                let t = match self.type_of(condition) {
                    Ok(t) => t,
                    Err(e) => {
                        return Err(e);
                    },
                };
                match t {
                    Type::Dvaidha | Type::Purna64 | Type::Unknown => {},
                    _ => {
                        return Err(TypeError::Mismatch {
                            expected: String::from_str("द्वैध (Boolean)"),
                            found: t.name(),
                            span: condition.span,
                        });
                    },
                }
                self.enter_scope();
                match self.check_block(body) {
                    Ok(_) => {},
                    Err(e) => {
                        return Err(e);
                    },
                }
                self.exit_scope();
                Ok(())
            },
            Statement::Return { value, span } => {
                let t = match value {
                    Some(v) => match self.type_of(v) {
                        Ok(t) => t,
                        Err(e) => {
                            return Err(e);
                        },
                    },
                    None => Type::Rikta,
                };
                let ret = self.return_type();
                let unknown = match t {
                    Type::Unknown => true,
                    _ => false,
                };
                if !ret.same(&t) && !unknown {
                    return Err(TypeError::Mismatch { expected: ret.name(), found: t.name(), span: *span });
                }
                Ok(())
            },
            Statement::Expr(e) => {
                match self.type_of(e) {
                    Ok(_) => {},
                    Err(err) => {
                        return Err(err);
                    },
                }
                Ok(())
            },
        }
    }

    /// Statements in turn, stopping at the first error.
    fn check_block(&mut self, stmts: &Vec<Statement>) -> (r: Result<(), TypeError>)
        ensures
            (final(self)@, unit_res(r)) == tc_block(old(self)@, stmts_view(stmts@), 0),
        decreases stmts, 1int,
    {
        proof {
            lemma_stmts_view(stmts@);
        }
        let ghost sv = stmts_view(stmts@);
        let ghost st0 = self@;
        let mut i: usize = 0;
        while i < stmts.len()
            invariant
                i <= stmts@.len(),
                sv == stmts_view(stmts@),
                sv.len() == stmts@.len(),
                forall|j: int| 0 <= j < stmts@.len() ==> #[trigger] sv[j] == stmt_view(stmts@[j]),
                tc_block(st0, sv, 0) == tc_block(self@, sv, i as int),
                st0 == old(self)@,
            decreases stmts.len() - i,
        {
            proof {
                lemma_tc_block(self@, sv, i as int);
                assert(decreases_to!(*stmts => stmts@));
                assert(decreases_to!(stmts@ => stmts@[i as int]));
            }
            match self.check_statement(&stmts[i]) {
                Ok(_) => {},
                Err(e) => {
                    return Err(e);
                },
            }
            i = i + 1;
        }
        proof {
            lemma_tc_block(self@, sv, i as int);
        }
        Ok(())
    }
}

/// The parameter types of a function's signature.
fn param_types(params: &Vec<Param>) -> (r: Vec<Type>)
    ensures
        types_view(r@) == params@.map_values(|p: Param| param_view(p)).map_values(|p: ParamView| ann_type(p.type_ann)),
{
    let mut r: Vec<Type> = Vec::new();
    let mut i: usize = 0;
    while i < params.len()
        invariant
            i <= params@.len(),
            r@.len() == i,
            forall|j: int| 0 <= j < i ==> #[trigger] r@[j]@ == ann_type(ann_view(params@[j].type_ann)),
        decreases params.len() - i,
    {
        r.push(Type::from_annotation(&params[i].type_ann));
        i = i + 1;
    }
    proof {
        assert(types_view(r@) =~= params@.map_values(|p: Param| param_view(p)).map_values(|p: ParamView| ann_type(p.type_ann)));
    }
    r
}

/// The type of a method's parameter: the receiver `स्व` is the target struct,
/// by reference where it is written so.
fn method_param(target: &String, p: &Param) -> (r: Type)
    ensures
        r@ == method_param_type(target@, param_view(*p)),
{
    proof {
        reveal_with_fuel(crate::types::type_view, 2);
    }
    if str_is(p.name.as_str(), "स्व") {
        match &p.type_ann {
            TypeAnnotation::Reference(_) => Type::Reference(Box::new(Type::Struct(target.clone()))),
            TypeAnnotation::MutReference(_) => Type::MutReference(Box::new(Type::Struct(target.clone()))),
            _ => Type::Struct(target.clone()),
        }
    } else {
        Type::from_annotation(&p.type_ann)
    }
}

/// The signature of a method of `target`.
fn method_signature(target: &String, m: &FunctionDecl) -> (r: FuncSignature)
    ensures
        r@ == method_sig(target@, function_view(*m)),
{
    let mut params: Vec<Type> = Vec::new();
    let mut i: usize = 0;
    while i < m.params.len()
        invariant
            i <= m.params@.len(),
            params@.len() == i,
            forall|j: int| 0 <= j < i ==> #[trigger] params@[j]@ == method_param_type(target@, param_view(m.params@[j])),
        decreases m.params.len() - i,
    {
        params.push(method_param(target, &m.params[i]));
        i = i + 1;
    }
    let r = FuncSignature { params, return_type: return_type_of(&m.return_type), span: m.span };
    proof {
        assert(types_view(r.params@) =~= function_view(*m).params.map_values(|p: ParamView| method_param_type(target@, p)));
    }
    r
}

/// What the first pass records of a struct.
fn struct_info(s: &StructDecl) -> (r: StructInfo)
    ensures
        r@ == struct_info_of(struct_view(*s)),
{
    let mut fields: Vec<(String, Type)> = Vec::new();
    let mut order: Vec<String> = Vec::new();
    let mut i: usize = 0;
    while i < s.fields.len()
        invariant
            i <= s.fields@.len(),
            fields@.len() == i,
            order@.len() == i,
            forall|j: int| 0 <= j < i ==> #[trigger] fields@[j].0@ == s.fields@[j].name@ && fields@[j].1@ == ann_type(ann_view(s.fields@[j].type_ann)),
            forall|j: int| 0 <= j < i ==> #[trigger] order@[j]@ == s.fields@[j].name@,
        decreases s.fields.len() - i,
    {
        fields.push((s.fields[i].name.clone(), Type::from_annotation(&s.fields[i].type_ann)));
        order.push(s.fields[i].name.clone());
        i = i + 1;
    }
    let r = StructInfo { name: s.name.clone(), fields, field_order: order, span: s.span };
    proof {
        assert(r@.fields =~= struct_info_of(struct_view(*s)).fields);
        assert(r@.field_order =~= struct_info_of(struct_view(*s)).field_order);
    }
    r
}

impl TypeChecker {
    /// A function: its body in a new scope, with its parameters and return type.
    fn check_function(&mut self, f: &FunctionDecl) -> (r: Result<(), TypeError>)
        ensures
            (final(self)@, unit_res(r)) == tc_function(old(self)@, function_view(*f)),
    {
        let ghost fv = function_view(*f);
        let ghost pv = fv.params;
        self.enter_scope();
        let ret = return_type_of(&f.return_type);
        self.set_return_type(ret);
        let ghost st1 = self@;
        let mut j: usize = 0;
        while j < f.params.len()
            invariant
                j <= f.params@.len(),
                pv == f.params@.map_values(|p: Param| param_view(p)),
                define_params(st1, pv, 0) == define_params(self@, pv, j as int),
            decreases f.params.len() - j,
        {
            let p = &f.params[j];
            self.define_var(p.name.clone(), Type::from_annotation(&p.type_ann), false, p.span);
            j = j + 1;
        }
        match self.check_block(&f.body) {
            Ok(_) => {},
            Err(e) => {
                return Err(e);
            },
        }
        self.exit_scope();
        Ok(())
    }

    /// A method of `target`, against the signature that the method table
    /// holds for it.
    fn check_method(&mut self, target: &String, m: &FunctionDecl) -> (r: Result<(), TypeError>)
        ensures
            (final(self)@, unit_res(r)) == tc_method(old(self)@, target@, function_view(*m)),
    {
        let ghost fv = function_view(*m);
        let ghost pv = fv.params;
        let sig = match self.find_method(target, &m.name) {
            Some(s) => s,
            None => {
                return Ok(());
            },
        };
        let prev = self.return_type();
        self.enter_scope();
        self.set_return_type(sig.return_type.duplicate());
        let ghost st1 = self@;
        let ghost tys = sig@.params;
        let mut j: usize = 0;
        while j < m.params.len() && j < sig.params.len()
            invariant
                j <= m.params@.len(),
                pv == m.params@.map_values(|p: Param| param_view(p)),
                tys == types_view(sig.params@),
                define_method_params(st1, pv, tys, 0) == define_method_params(self@, pv, tys, j as int),
            decreases m.params.len() - j,
        {
            let is_mut = match &sig.params[j] {
                Type::MutReference(_) => true,
                _ => false,
            };
            let p = &m.params[j];
            self.define_var(p.name.clone(), sig.params[j].duplicate(), is_mut, p.span);
            j = j + 1;
        }
        match self.check_block(&m.body) {
            Ok(_) => {},
            Err(e) => {
                return Err(e);
            },
        }
        self.set_return_type(prev);
        self.exit_scope();
        Ok(())
    }

    /// The methods of an impl block of `target`.
    fn check_methods(&mut self, target: &String, ms: &Vec<FunctionDecl>) -> (r: Result<(), TypeError>)
        ensures
            (final(self)@, unit_res(r)) == tc_methods(old(self)@, target@, ms@.map_values(|f: FunctionDecl| function_view(f)), 0),
    {
        let ghost mv = ms@.map_values(|f: FunctionDecl| function_view(f));
        let ghost st0 = self@;
        let mut j: usize = 0;
        while j < ms.len()
            invariant
                j <= ms@.len(),
                mv == ms@.map_values(|f: FunctionDecl| function_view(f)),
                tc_methods(st0, target@, mv, 0) == tc_methods(self@, target@, mv, j as int),
                st0 == old(self)@,
            decreases ms.len() - j,
        {
            match self.check_method(target, &ms[j]) {
                Ok(_) => {},
                Err(e) => {
                    return Err(e);
                },
            }
            j = j + 1;
        }
        Ok(())
    }

    /// A whole program: first the structs it declares, then the signatures of
    /// its functions and methods, then its items in order.
    pub fn check_program(&mut self, program: &Program) -> (r: Result<(), TypeError>)
        ensures
            (final(self)@, unit_res(r)) == tc_program(old(self)@, program@),
    {
        let ghost items = program@.items;
        let ghost st0 = self@;
        let n = program.items.len();
        let mut i: usize = 0;
        while i < n
            invariant
                i <= n,
                n == program.items@.len(),
                items == program@.items,
                items == program.items@.map_values(|it: TopLevelItem| item_view(it)),
                st0 == old(self)@,
                collect_structs(st0, items, 0) == collect_structs(self@, items, i as int),
            decreases n - i,
        {
            match &program.items[i] {
                TopLevelItem::Struct(s) => {
                    let info = struct_info(s);
                    self.add_struct(s.name.clone(), info);
                },
                _ => {},
            }
            i = i + 1;
        }
        let ghost st1 = self@;
        proof {
            assert(st1 == collect_structs(st0, items, 0));
        }
        let mut i: usize = 0;
        while i < n
            invariant
                i <= n,
                n == program.items@.len(),
                items == program@.items,
                items == program.items@.map_values(|it: TopLevelItem| item_view(it)),
                st1 == collect_structs(st0, items, 0),
                collect_sigs(st1, items, 0) == collect_sigs(self@, items, i as int),
            decreases n - i,
        {
            match &program.items[i] {
                TopLevelItem::Function(f) => {
                    let sig = FuncSignature { params: param_types(&f.params), return_type: return_type_of(&f.return_type), span: f.span };
                    self.add_function(f.name.clone(), sig);
                },
                TopLevelItem::Impl(b) => {
                    let ghost mv = b.methods@.map_values(|f: FunctionDecl| function_view(f));
                    let ghost m0 = self@.methods;
                    let ghost s0 = self@;
                    let mut j: usize = 0;
                    while j < b.methods.len()
                        invariant
                            j <= b.methods@.len(),
                            mv == b.methods@.map_values(|f: FunctionDecl| function_view(f)),
                            add_methods(m0, b.target@, mv, 0) == add_methods(self@.methods, b.target@, mv, j as int),
                            self@ == (TcView { methods: self@.methods, ..s0 }),
                        decreases b.methods.len() - j,
                    {
                        let sig = method_signature(&b.target, &b.methods[j]);
                        self.add_method(b.target.clone(), b.methods[j].name.clone(), sig);
                        j = j + 1;
                    }
                },
                _ => {},
            }
            i = i + 1;
        }
        let ghost st2 = self@;
        proof {
            assert(st2 == collect_sigs(st1, items, 0));
            assert(tc_program(st0, program@) == check_items(st2, items, 0));
        }
        let mut i: usize = 0;
        while i < n
            invariant
                i <= n,
                n == program.items@.len(),
                items == program.items@.map_values(|it: TopLevelItem| item_view(it)),
                tc_program(st0, program@) == check_items(st2, items, 0),
                st0 == old(self)@,
                check_items(st2, items, 0) == check_items(self@, items, i as int),
            decreases n - i,
        {
            let r = match &program.items[i] {
                TopLevelItem::Function(f) => self.check_function(f),
                TopLevelItem::Impl(b) => self.check_methods(&b.target, &b.methods),
                TopLevelItem::Statement(s) => self.check_statement(s),
                _ => Ok(()),
            };
            match r {
                Ok(_) => {},
                Err(e) => {
                    return Err(e);
                },
            }
            i = i + 1;
        }
        Ok(())
    }

    /// The type of an expression (the checker's state does not change).
    pub fn check_expr(&mut self, expr: &Expr) -> (r: Result<Type, TypeError>)
        ensures
            final(self)@ == old(self)@,
            ty_res(r) == crate::typecheck::tc_expr(old(self)@, expr_view(*expr)),
    {
        self.type_of(expr)
    }
}

} // verus!
