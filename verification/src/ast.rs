//! The syntax tree of a Sankode program, and its mathematical model: the same
//! tree with every `String` taken as a character sequence and every `Vec` as a
//! sequence (the `...View` types).
use vstd::prelude::*;
use crate::span::Span;

verus! {

#[derive(Debug, PartialEq)]
pub struct Program {
    pub items: Vec<TopLevelItem>,
}

#[derive(Debug, PartialEq)]
pub enum TopLevelItem {
    Function(FunctionDecl),
    Struct(StructDecl),
    Impl(ImplBlock),
    Statement(Statement),
    Comment(String),
}

#[derive(Debug, PartialEq)]
pub struct StructDecl {
    pub name: String,
    pub fields: Vec<FieldDecl>,
    pub span: Span,
}

#[derive(Debug, PartialEq)]
pub struct FieldDecl {
    pub name: String,
    pub type_ann: TypeAnnotation,
    pub span: Span,
}

#[derive(Debug, PartialEq)]
pub struct ImplBlock {
    pub target: String,
    pub methods: Vec<FunctionDecl>,
    pub span: Span,
}

#[derive(Debug, PartialEq)]
pub struct FunctionDecl {
    pub name: String,
    pub params: Vec<Param>,
    pub return_type: Option<TypeAnnotation>,
    pub body: Vec<Statement>,
    pub span: Span,
}

#[derive(Debug, PartialEq)]
pub struct Param {
    pub name: String,
    pub type_ann: TypeAnnotation,
    pub span: Span,
}

/// A written type: a name (पूर्ण६४, सूत्र, a struct ...), `ऋण T`, `चलऋण T`,
/// or a list `सूची[T]`.
#[derive(Debug, PartialEq)]
pub enum TypeAnnotation {
    Simple(String),
    Reference(Box<TypeAnnotation>),
    MutReference(Box<TypeAnnotation>),
    List(Box<TypeAnnotation>),
}

#[derive(Debug, PartialEq)]
#[allow(inconsistent_fields)]
pub enum Statement {
    /// मान [विकार्य] x [: Type] = expr।
    VarDecl { name: String, is_mut: bool, type_ann: Option<TypeAnnotation>, init: Expr, span: Span },
    /// target = expr।
    Assignment { target: String, value: Expr, span: Span },
    /// target.field = expr।
    FieldAssignment { target: String, field: String, value: Expr, span: Span },
    /// target[index] = expr।
    IndexAssignment { target: Box<Expr>, index: Box<Expr>, value: Expr, span: Span },
    /// यदि condition body [अन्यथा else_body] इति
    If {
        condition: Expr,
        then_branch: Vec<Statement>,
        else_branch: Option<Vec<Statement>>,
        span: Span,
    },
    /// यावत् condition body इति
    While { condition: Expr, body: Vec<Statement>, span: Span },
    /// प्रति [expr]।
    Return { value: Option<Expr>, span: Span },
    /// expr।
    Expr(Expr),
}

#[derive(Debug, PartialEq)]
pub struct Expr {
    pub kind: ExprKind,
    pub span: Span,
}

#[derive(Debug, PartialEq)]
#[allow(inconsistent_fields)]
pub enum ExprKind {
    DevanagariInteger(i64, String),
    /// A decimal literal, by its Devanagari text.
    DevanagariFloat(String),
    StringLiteral(String),
    BoolLiteral(bool),
    Identifier(String),
    Binary { left: Box<Expr>, op: BinaryOp, right: Box<Expr> },
    Unary { op: UnaryOp, expr: Box<Expr> },
    Call { callee: String, args: Vec<Expr> },
    MethodCall { target: Box<Expr>, method: String, args: Vec<Expr> },
    FieldAccess { target: Box<Expr>, field: String },
    StructInit { name: String, fields: Vec<(String, Expr)> },
    Borrow { is_mut: bool, expr: Box<Expr> },
    ArrayLiteral(Vec<Expr>),
    Index { target: Box<Expr>, index: Box<Expr> },
}

#[derive(Debug, Clone, Copy, PartialEq, Eq, Structural)]
pub enum BinaryOp {
    Add,
    Sub,
    Mul,
    Div,
    Mod,
    Equal,
    NotEqual,
    Less,
    LessEq,
    Greater,
    GreaterEq,
}

/// The symbol that writes a binary operator in source text.
pub open spec fn op_symbol(op: BinaryOp) -> Seq<char> {
    match op {
        BinaryOp::Add => "+"@,
        BinaryOp::Sub => "-"@,
        BinaryOp::Mul => "*"@,
        BinaryOp::Div => "/"@,
        BinaryOp::Mod => "%"@,
        BinaryOp::Equal => "=="@,
        BinaryOp::NotEqual => "!="@,
        BinaryOp::Less => "<"@,
        BinaryOp::LessEq => "<="@,
        BinaryOp::Greater => ">"@,
        BinaryOp::GreaterEq => ">="@,
    }
}

#[derive(Debug, Clone, Copy, PartialEq, Eq, Structural)]
pub enum UnaryOp {
    Neg,
    Not,
}

// ---------------------------------------------------------------------------
// The model of the tree.
// ---------------------------------------------------------------------------

pub struct ProgramView {
    pub items: Seq<ItemView>,
}

pub enum ItemView {
    Function(FunctionView),
    Struct(StructView),
    Impl(ImplView),
    Statement(StmtView),
    Comment(Seq<char>),
}

pub struct StructView {
    pub name: Seq<char>,
    pub fields: Seq<FieldView>,
    pub span: Span,
}

pub struct FieldView {
    pub name: Seq<char>,
    pub type_ann: AnnView,
    pub span: Span,
}

pub struct ImplView {
    pub target: Seq<char>,
    pub methods: Seq<FunctionView>,
    pub span: Span,
}

pub struct FunctionView {
    pub name: Seq<char>,
    pub params: Seq<ParamView>,
    pub return_type: Option<AnnView>,
    pub body: Seq<StmtView>,
    pub span: Span,
}

pub struct ParamView {
    pub name: Seq<char>,
    pub type_ann: AnnView,
    pub span: Span,
}

pub enum AnnView {
    Simple(Seq<char>),
    Reference(Box<AnnView>),
    MutReference(Box<AnnView>),
    List(Box<AnnView>),
}

#[allow(inconsistent_fields)]
pub enum StmtView {
    VarDecl { name: Seq<char>, is_mut: bool, type_ann: Option<AnnView>, init: ExprView, span: Span },
    Assignment { target: Seq<char>, value: ExprView, span: Span },
    FieldAssignment { target: Seq<char>, field: Seq<char>, value: ExprView, span: Span },
    IndexAssignment { target: Box<ExprView>, index: Box<ExprView>, value: ExprView, span: Span },
    If {
        condition: ExprView,
        then_branch: Seq<StmtView>,
        else_branch: Option<Seq<StmtView>>,
        span: Span,
    },
    While { condition: ExprView, body: Seq<StmtView>, span: Span },
    Return { value: Option<ExprView>, span: Span },
    Expr(ExprView),
}

pub struct ExprView {
    pub kind: ExprKindView,
    pub span: Span,
}

#[allow(inconsistent_fields)]
pub enum ExprKindView {
    DevanagariInteger(i64, Seq<char>),
    DevanagariFloat(Seq<char>),
    StringLiteral(Seq<char>),
    BoolLiteral(bool),
    Identifier(Seq<char>),
    Binary { left: Box<ExprView>, op: BinaryOp, right: Box<ExprView> },
    Unary { op: UnaryOp, expr: Box<ExprView> },
    Call { callee: Seq<char>, args: Seq<ExprView> },
    MethodCall { target: Box<ExprView>, method: Seq<char>, args: Seq<ExprView> },
    FieldAccess { target: Box<ExprView>, field: Seq<char> },
    StructInit { name: Seq<char>, fields: Seq<(Seq<char>, ExprView)> },
    Borrow { is_mut: bool, expr: Box<ExprView> },
    ArrayLiteral(Seq<ExprView>),
    Index { target: Box<ExprView>, index: Box<ExprView> },
}

pub open spec fn ann_view(a: TypeAnnotation) -> AnnView
    decreases a,
{
    match a {
        TypeAnnotation::Simple(s) => AnnView::Simple(s@),
        TypeAnnotation::Reference(b) => AnnView::Reference(Box::new(ann_view(*b))),
        TypeAnnotation::MutReference(b) => AnnView::MutReference(Box::new(ann_view(*b))),
        TypeAnnotation::List(b) => AnnView::List(Box::new(ann_view(*b))),
    }
}

pub open spec fn opt_ann_view(a: Option<TypeAnnotation>) -> Option<AnnView> {
    match a {
        Some(t) => Some(ann_view(t)),
        None => None,
    }
}

pub open spec fn expr_view(e: Expr) -> ExprView
    decreases e,
{
    ExprView { kind: expr_kind_view(e.kind), span: e.span }
}

pub open spec fn expr_kind_view(k: ExprKind) -> ExprKindView
    decreases k,
{
    match k {
        ExprKind::DevanagariInteger(v, raw) => ExprKindView::DevanagariInteger(v, raw@),
        ExprKind::DevanagariFloat(raw) => ExprKindView::DevanagariFloat(raw@),
        ExprKind::StringLiteral(s) => ExprKindView::StringLiteral(s@),
        ExprKind::BoolLiteral(b) => ExprKindView::BoolLiteral(b),
        ExprKind::Identifier(s) => ExprKindView::Identifier(s@),
        ExprKind::Binary { left, op, right } => ExprKindView::Binary {
            left: Box::new(expr_view(*left)),
            op,
            right: Box::new(expr_view(*right)),
        },
        ExprKind::Unary { op, expr } => ExprKindView::Unary { op, expr: Box::new(expr_view(*expr)) },
        ExprKind::Call { callee, args } => ExprKindView::Call { callee: callee@, args: exprs_view(args@) },
        ExprKind::MethodCall { target, method, args } => ExprKindView::MethodCall {
            target: Box::new(expr_view(*target)),
            method: method@,
            args: exprs_view(args@),
        },
        ExprKind::FieldAccess { target, field } => ExprKindView::FieldAccess {
            target: Box::new(expr_view(*target)),
            field: field@,
        },
        ExprKind::StructInit { name, fields } => ExprKindView::StructInit {
            name: name@,
            fields: field_inits_view(fields@),
        },
        ExprKind::Borrow { is_mut, expr } => ExprKindView::Borrow { is_mut, expr: Box::new(expr_view(*expr)) },
        ExprKind::ArrayLiteral(elems) => ExprKindView::ArrayLiteral(exprs_view(elems@)),
        ExprKind::Index { target, index } => ExprKindView::Index {
            target: Box::new(expr_view(*target)),
            index: Box::new(expr_view(*index)),
        },
    }
}

pub open spec fn exprs_view(s: Seq<Expr>) -> Seq<ExprView>
    decreases s,
{
    if s.len() == 0 {
        Seq::empty()
    } else {
        seq![expr_view(s[0])] + exprs_view(s.drop_first())
    }
}

pub open spec fn field_inits_view(s: Seq<(String, Expr)>) -> Seq<(Seq<char>, ExprView)>
    decreases s,
{
    if s.len() == 0 {
        Seq::empty()
    } else {
        seq![(s[0].0@, expr_view(s[0].1))] + field_inits_view(s.drop_first())
    }
}

pub open spec fn opt_expr_view(e: Option<Expr>) -> Option<ExprView> {
    match e {
        Some(x) => Some(expr_view(x)),
        None => None,
    }
}

pub open spec fn stmt_view(s: Statement) -> StmtView
    decreases s,
{
    match s {
        Statement::VarDecl { name, is_mut, type_ann, init, span } => StmtView::VarDecl {
            name: name@,
            is_mut,
            type_ann: opt_ann_view(type_ann),
            init: expr_view(init),
            span,
        },
        Statement::Assignment { target, value, span } => StmtView::Assignment {
            target: target@,
            value: expr_view(value),
            span,
        },
        Statement::FieldAssignment { target, field, value, span } => StmtView::FieldAssignment {
            target: target@,
            field: field@,
            value: expr_view(value),
            span,
        },
        Statement::IndexAssignment { target, index, value, span } => StmtView::IndexAssignment {
            target: Box::new(expr_view(*target)),
            index: Box::new(expr_view(*index)),
            value: expr_view(value),
            span,
        },
        Statement::If { condition, then_branch, else_branch, span } => StmtView::If {
            condition: expr_view(condition),
            then_branch: stmts_view(then_branch@),
            else_branch: match else_branch {
                Some(b) => Some(stmts_view(b@)),
                None => None,
            },
            span,
        },
        Statement::While { condition, body, span } => StmtView::While {
            condition: expr_view(condition),
            body: stmts_view(body@),
            span,
        },
        Statement::Return { value, span } => StmtView::Return { value: opt_expr_view(value), span },
        Statement::Expr(e) => StmtView::Expr(expr_view(e)),
    }
}

pub open spec fn stmts_view(s: Seq<Statement>) -> Seq<StmtView>
    decreases s,
{
    if s.len() == 0 {
        Seq::empty()
    } else {
        seq![stmt_view(s[0])] + stmts_view(s.drop_first())
    }
}

pub open spec fn param_view(p: Param) -> ParamView {
    ParamView { name: p.name@, type_ann: ann_view(p.type_ann), span: p.span }
}

pub open spec fn field_view(f: FieldDecl) -> FieldView {
    FieldView { name: f.name@, type_ann: ann_view(f.type_ann), span: f.span }
}

pub open spec fn function_view(f: FunctionDecl) -> FunctionView {
    FunctionView {
        name: f.name@,
        params: f.params@.map_values(|p: Param| param_view(p)),
        return_type: opt_ann_view(f.return_type),
        body: stmts_view(f.body@),
        span: f.span,
    }
}

pub open spec fn struct_view(s: StructDecl) -> StructView {
    StructView {
        name: s.name@,
        fields: s.fields@.map_values(|f: FieldDecl| field_view(f)),
        span: s.span,
    }
}

pub open spec fn impl_view(i: ImplBlock) -> ImplView {
    ImplView {
        target: i.target@,
        methods: i.methods@.map_values(|f: FunctionDecl| function_view(f)),
        span: i.span,
    }
}

pub open spec fn item_view(i: TopLevelItem) -> ItemView {
    match i {
        TopLevelItem::Function(f) => ItemView::Function(function_view(f)),
        TopLevelItem::Struct(s) => ItemView::Struct(struct_view(s)),
        TopLevelItem::Impl(b) => ItemView::Impl(impl_view(b)),
        TopLevelItem::Statement(s) => ItemView::Statement(stmt_view(s)),
        TopLevelItem::Comment(c) => ItemView::Comment(c@),
    }
}

impl View for Program {
    type V = ProgramView;

    open spec fn view(&self) -> ProgramView {
        ProgramView { items: self.items@.map_values(|i: TopLevelItem| item_view(i)) }
    }
}

/// The list views are taken element by element.
pub proof fn lemma_exprs_view(s: Seq<Expr>)
    ensures
        exprs_view(s).len() == s.len(),
        forall|i: int| 0 <= i < s.len() ==> #[trigger] exprs_view(s)[i] == expr_view(s[i]),
    decreases s.len(),
{
    if s.len() > 0 {
        lemma_exprs_view(s.drop_first());
        assert forall|i: int| 0 <= i < s.len() implies #[trigger] exprs_view(s)[i] == expr_view(s[i]) by {
            if i > 0 {
                assert(exprs_view(s)[i] == exprs_view(s.drop_first())[i - 1]);
            }
        }
    }
}

pub proof fn lemma_stmts_view(s: Seq<Statement>)
    ensures
        stmts_view(s).len() == s.len(),
        forall|i: int| 0 <= i < s.len() ==> #[trigger] stmts_view(s)[i] == stmt_view(s[i]),
    decreases s.len(),
{
    if s.len() > 0 {
        lemma_stmts_view(s.drop_first());
        assert forall|i: int| 0 <= i < s.len() implies #[trigger] stmts_view(s)[i] == stmt_view(s[i]) by {
            if i > 0 {
                assert(stmts_view(s)[i] == stmts_view(s.drop_first())[i - 1]);
            }
        }
    }
}

pub proof fn lemma_field_inits_view(s: Seq<(String, Expr)>)
    ensures
        field_inits_view(s).len() == s.len(),
        forall|i: int| 0 <= i < s.len() ==> #[trigger] field_inits_view(s)[i] == (s[i].0@, expr_view(s[i].1)),
    decreases s.len(),
{
    if s.len() > 0 {
        lemma_field_inits_view(s.drop_first());
        assert forall|i: int| 0 <= i < s.len() implies #[trigger] field_inits_view(s)[i] == (s[i].0@, expr_view(s[i].1)) by {
            if i > 0 {
                assert(field_inits_view(s)[i] == field_inits_view(s.drop_first())[i - 1]);
            }
        }
    }
}

pub proof fn lemma_exprs_view_push(s: Seq<Expr>, x: Expr)
    ensures
        exprs_view(s.push(x)) =~= exprs_view(s).push(expr_view(x)),
{
    lemma_exprs_view(s);
    lemma_exprs_view(s.push(x));
}

pub proof fn lemma_stmts_view_push(s: Seq<Statement>, x: Statement)
    ensures
        stmts_view(s.push(x)) =~= stmts_view(s).push(stmt_view(x)),
{
    lemma_stmts_view(s);
    lemma_stmts_view(s.push(x));
}

pub proof fn lemma_field_inits_view_push(s: Seq<(String, Expr)>, x: (String, Expr))
    ensures
        field_inits_view(s.push(x)) =~= field_inits_view(s).push((x.0@, expr_view(x.1))),
{
    lemma_field_inits_view(s);
    lemma_field_inits_view(s.push(x));
}

pub proof fn lemma_empty_views()
    ensures
        exprs_view(Seq::<Expr>::empty()) =~= Seq::<ExprView>::empty(),
        stmts_view(Seq::<Statement>::empty()) =~= Seq::<StmtView>::empty(),
        field_inits_view(Seq::<(String, Expr)>::empty()) =~= Seq::<(Seq<char>, ExprView)>::empty(),
{
}

} // verus!
