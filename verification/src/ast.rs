use vstd::prelude::*;

verus! {

/// A half-open range of positions. Tokens carry byte offsets into the
/// source; statements and top-level items carry token indices.
#[derive(Debug, Clone, Copy, PartialEq, Eq, Structural)]
pub struct Span {
    pub start: usize,
    pub end: usize,
}

pub open spec fn min_usize(a: usize, b: usize) -> usize {
    if a <= b { a } else { b }
}

pub open spec fn max_usize(a: usize, b: usize) -> usize {
    if a >= b { a } else { b }
}

/// The smallest span covering both arguments.
pub open spec fn merge_spans(a: Span, b: Span) -> Span {
    Span { start: min_usize(a.start, b.start), end: max_usize(a.end, b.end) }
}

impl Span {
    pub fn new(start: usize, end: usize) -> (s: Self)
        ensures
            s == (Span { start, end }),
    {
        Self { start, end }
    }

    /// The smallest span covering both spans.
    pub fn merge(&self, other: &Self) -> (s: Self)
        ensures
            s == merge_spans(*self, *other),
    {
        Self {
            start: if self.start <= other.start { self.start } else { other.start },
            end: if self.end >= other.end { self.end } else { other.end },
        }
    }
}

/// Merging is commutative.
pub proof fn merge_commutative(a: Span, b: Span)
    ensures
        merge_spans(a, b) == merge_spans(b, a),
{
}

/// Merging is associative.
pub proof fn merge_associative(a: Span, b: Span, c: Span)
    ensures
        merge_spans(merge_spans(a, b), c) == merge_spans(a, merge_spans(b, c)),
{
}

/// Merging a span with itself gives the span back.
pub proof fn merge_idempotent(a: Span)
    ensures
        merge_spans(a, a) == a,
{
}

/// The merged span starts no later and ends no earlier than either argument.
pub proof fn merge_covers(a: Span, b: Span)
    ensures
        merge_spans(a, b).start <= a.start,
        merge_spans(a, b).start <= b.start,
        merge_spans(a, b).end >= a.end,
        merge_spans(a, b).end >= b.end,
        merge_spans(a, b).start == a.start || merge_spans(a, b).start == b.start,
        merge_spans(a, b).end == a.end || merge_spans(a, b).end == b.end,
{
}

#[derive(Debug, Clone, PartialEq)]
pub enum Type {
    Int,
    Double,
    Str,
    Array,
    DoubleArray,
    Struct(String),
}

pub enum TypeV {
    Int,
    Double,
    Str,
    Array,
    DoubleArray,
    Struct(Seq<char>),
}

impl View for Type {
    type V = TypeV;

    open spec fn view(&self) -> TypeV {
        match self {
            Type::Int => TypeV::Int,
            Type::Double => TypeV::Double,
            Type::Str => TypeV::Str,
            Type::Array => TypeV::Array,
            Type::DoubleArray => TypeV::DoubleArray,
            Type::Struct(s) => TypeV::Struct(s@),
        }
    }
}

impl Type {
    /// A copy of this type.
    pub fn duplicate(&self) -> (t: Type)
        ensures
            t@ == self@,
    {
        match self {
            Type::Int => Type::Int,
            Type::Double => Type::Double,
            Type::Str => Type::Str,
            Type::Array => Type::Array,
            Type::DoubleArray => Type::DoubleArray,
            Type::Struct(s) => Type::Struct(s.clone()),
        }
    }
}

pub open spec fn view_opt_type(t: Option<Type>) -> Option<TypeV> {
    match t {
        Some(t) => Some(t@),
        None => None,
    }
}

#[derive(Debug, Clone, Copy, PartialEq, Eq, Structural)]
pub enum BinOp {
    Add,
    Sub,
    Mul,
    Div,
    Eq,
    NotEq,
    Less,
    Greater,
    LessEq,
    GreaterEq,
    And,
    Or,
}

#[derive(Debug, Clone, Copy, PartialEq, Eq, Structural)]
pub enum UnaryOp {
    Not,
    Neg,
}

/// An expression. A double literal keeps the digits it was written with.
#[derive(Debug)]
pub enum Expr {
    Number(i32, Span),
    DoubleLiteral(String, Span),
    StringLiteral(String, Span),
    Variable(String, Span),
    Input(String, Span),
    Call { name: String, args: Vec<Expr>, span: Span },
    MethodCall { instance: Box<Expr>, method: String, args: Vec<Expr>, span: Span },
    StructLiteral { name: String, fields: Vec<Expr>, span: Span },
    ArrayLiteral(Vec<Expr>, Span),
    Index { array: Box<Expr>, index: Box<Expr>, span: Span },
    FieldAccess { expr: Box<Expr>, field: String, span: Span },
    Binary { left: Box<Expr>, op: BinOp, right: Box<Expr>, span: Span },
    Unary { op: UnaryOp, expr: Box<Expr>, span: Span },
    Ternary { condition: Box<Expr>, then_expr: Box<Expr>, else_expr: Box<Expr>, span: Span },
}

pub enum ExprV {
    Number(i32, Span),
    DoubleLiteral(Seq<char>, Span),
    StringLiteral(Seq<char>, Span),
    Variable(Seq<char>, Span),
    Input(Seq<char>, Span),
    Call { name: Seq<char>, args: Seq<ExprV>, span: Span },
    MethodCall { instance: Box<ExprV>, method: Seq<char>, args: Seq<ExprV>, span: Span },
    StructLiteral { name: Seq<char>, fields: Seq<ExprV>, span: Span },
    ArrayLiteral(Seq<ExprV>, Span),
    Index { array: Box<ExprV>, index: Box<ExprV>, span: Span },
    FieldAccess { expr: Box<ExprV>, field: Seq<char>, span: Span },
    Binary { left: Box<ExprV>, op: BinOp, right: Box<ExprV>, span: Span },
    Unary { op: UnaryOp, expr: Box<ExprV>, span: Span },
    Ternary { condition: Box<ExprV>, then_expr: Box<ExprV>, else_expr: Box<ExprV>, span: Span },
}

pub open spec fn view_exprs(s: Seq<Expr>) -> Seq<ExprV>
    decreases s,
{
    if s.len() == 0 {
        Seq::empty()
    } else {
        seq![view_expr(s[0])] + view_exprs(s.drop_first())
    }
}

pub open spec fn view_expr(e: Expr) -> ExprV
    decreases e,
{
    match e {
        Expr::Number(n, sp) => ExprV::Number(n, sp),
        Expr::DoubleLiteral(t, sp) => ExprV::DoubleLiteral(t@, sp),
        Expr::StringLiteral(t, sp) => ExprV::StringLiteral(t@, sp),
        Expr::Variable(t, sp) => ExprV::Variable(t@, sp),
        Expr::Input(t, sp) => ExprV::Input(t@, sp),
        Expr::Call { name, args, span } => ExprV::Call { name: name@, args: view_exprs(args@), span },
        Expr::MethodCall { instance, method, args, span } => ExprV::MethodCall {
            instance: Box::new(view_expr(*instance)),
            method: method@,
            args: view_exprs(args@),
            span,
        },
        Expr::StructLiteral { name, fields, span } => ExprV::StructLiteral {
            name: name@,
            fields: view_exprs(fields@),
            span,
        },
        Expr::ArrayLiteral(elems, sp) => ExprV::ArrayLiteral(view_exprs(elems@), sp),
        Expr::Index { array, index, span } => ExprV::Index {
            array: Box::new(view_expr(*array)),
            index: Box::new(view_expr(*index)),
            span,
        },
        Expr::FieldAccess { expr, field, span } => ExprV::FieldAccess {
            expr: Box::new(view_expr(*expr)),
            field: field@,
            span,
        },
        Expr::Binary { left, op, right, span } => ExprV::Binary {
            left: Box::new(view_expr(*left)),
            op,
            right: Box::new(view_expr(*right)),
            span,
        },
        Expr::Unary { op, expr, span } => ExprV::Unary { op, expr: Box::new(view_expr(*expr)), span },
        Expr::Ternary { condition, then_expr, else_expr, span } => ExprV::Ternary {
            condition: Box::new(view_expr(*condition)),
            then_expr: Box::new(view_expr(*then_expr)),
            else_expr: Box::new(view_expr(*else_expr)),
            span,
        },
    }
}

impl View for Expr {
    type V = ExprV;

    open spec fn view(&self) -> ExprV {
        view_expr(*self)
    }
}

pub proof fn lemma_view_exprs(s: Seq<Expr>)
    ensures
        view_exprs(s).len() == s.len(),
        forall|i: int| 0 <= i < s.len() ==> #[trigger] view_exprs(s)[i] == view_expr(s[i]),
    decreases s.len(),
{
    if s.len() > 0 {
        lemma_view_exprs(s.drop_first());
        assert forall|i: int| 0 <= i < s.len() implies #[trigger] view_exprs(s)[i] == view_expr(
            s[i],
        ) by {
            if i > 0 {
                assert(s.drop_first()[i - 1] == s[i]);
            }
        }
    }
}

impl ExprV {
    /// The span that an expression records.
    pub open spec fn span(self) -> Span {
        match self {
            ExprV::Number(_, sp) => sp,
            ExprV::DoubleLiteral(_, sp) => sp,
            ExprV::StringLiteral(_, sp) => sp,
            ExprV::Variable(_, sp) => sp,
            ExprV::Input(_, sp) => sp,
            ExprV::Call { span, .. } => span,
            ExprV::MethodCall { span, .. } => span,
            ExprV::StructLiteral { span, .. } => span,
            ExprV::ArrayLiteral(_, sp) => sp,
            ExprV::Index { span, .. } => span,
            ExprV::FieldAccess { span, .. } => span,
            ExprV::Binary { span, .. } => span,
            ExprV::Unary { span, .. } => span,
            ExprV::Ternary { span, .. } => span,
        }
    }
}

impl Expr {
    /// The span this expression records.
    pub fn span(&self) -> (s: Span)
        ensures
            s == self@.span(),
    {
        match self {
            Expr::Number(_, sp) => *sp,
            Expr::DoubleLiteral(_, sp) => *sp,
            Expr::StringLiteral(_, sp) => *sp,
            Expr::Variable(_, sp) => *sp,
            Expr::Input(_, sp) => *sp,
            Expr::Call { span, .. } => *span,
            Expr::MethodCall { span, .. } => *span,
            Expr::StructLiteral { span, .. } => *span,
            Expr::ArrayLiteral(_, sp) => *sp,
            Expr::Index { span, .. } => *span,
            Expr::FieldAccess { span, .. } => *span,
            Expr::Binary { span, .. } => *span,
            Expr::Unary { span, .. } => *span,
            Expr::Ternary { span, .. } => *span,
        }
    }
}

#[derive(Debug)]
pub enum Stmt {
    Let { name: String, var_type: Option<Type>, value: Expr, span: Span },
    Assign { name: String, value: Expr, span: Span },
    AssignIndex { name: String, index: Expr, value: Expr, span: Span },
    IoPrint(Vec<Expr>, Span),
    If { condition: Expr, then_body: Vec<Stmt>, else_body: Option<Vec<Stmt>>, span: Span },
    While { condition: Expr, body: Vec<Stmt>, span: Span },
    For { var_name: String, start: Expr, condition: Expr, step: Expr, body: Vec<Stmt>, span: Span },
    Return(Expr, Span),
    Break(Span),
    Continue(Span),
    CallStmt { name: String, args: Vec<Expr>, span: Span },
}

pub enum StmtV {
    Let { name: Seq<char>, var_type: Option<TypeV>, value: ExprV, span: Span },
    Assign { name: Seq<char>, value: ExprV, span: Span },
    AssignIndex { name: Seq<char>, index: ExprV, value: ExprV, span: Span },
    IoPrint(Seq<ExprV>, Span),
    If { condition: ExprV, then_body: Seq<StmtV>, else_body: Option<Seq<StmtV>>, span: Span },
    While { condition: ExprV, body: Seq<StmtV>, span: Span },
    For {
        var_name: Seq<char>,
        start: ExprV,
        condition: ExprV,
        step: ExprV,
        body: Seq<StmtV>,
        span: Span,
    },
    Return(ExprV, Span),
    Break(Span),
    Continue(Span),
    CallStmt { name: Seq<char>, args: Seq<ExprV>, span: Span },
}

pub open spec fn view_stmts(s: Seq<Stmt>) -> Seq<StmtV>
    decreases s,
{
    if s.len() == 0 {
        Seq::empty()
    } else {
        seq![view_stmt(s[0])] + view_stmts(s.drop_first())
    }
}

pub open spec fn view_stmt(s: Stmt) -> StmtV
    decreases s,
{
    match s {
        Stmt::Let { name, var_type, value, span } => StmtV::Let {
            name: name@,
            var_type: view_opt_type(var_type),
            value: value@,
            span,
        },
        Stmt::Assign { name, value, span } => StmtV::Assign { name: name@, value: value@, span },
        Stmt::AssignIndex { name, index, value, span } => StmtV::AssignIndex {
            name: name@,
            index: index@,
            value: value@,
            span,
        },
        Stmt::IoPrint(args, sp) => StmtV::IoPrint(view_exprs(args@), sp),
        Stmt::If { condition, then_body, else_body, span } => StmtV::If {
            condition: condition@,
            then_body: view_stmts(then_body@),
            else_body: match else_body {
                Some(b) => Some(view_stmts(b@)),
                None => None,
            },
            span,
        },
        Stmt::While { condition, body, span } => StmtV::While {
            condition: condition@,
            body: view_stmts(body@),
            span,
        },
        Stmt::For { var_name, start, condition, step, body, span } => StmtV::For {
            var_name: var_name@,
            start: start@,
            condition: condition@,
            step: step@,
            body: view_stmts(body@),
            span,
        },
        Stmt::Return(e, sp) => StmtV::Return(e@, sp),
        Stmt::Break(sp) => StmtV::Break(sp),
        Stmt::Continue(sp) => StmtV::Continue(sp),
        Stmt::CallStmt { name, args, span } => StmtV::CallStmt {
            name: name@,
            args: view_exprs(args@),
            span,
        },
    }
}

impl View for Stmt {
    type V = StmtV;

    open spec fn view(&self) -> StmtV {
        view_stmt(*self)
    }
}

pub proof fn lemma_view_stmts(s: Seq<Stmt>)
    ensures
        view_stmts(s).len() == s.len(),
        forall|i: int| 0 <= i < s.len() ==> #[trigger] view_stmts(s)[i] == view_stmt(s[i]),
    decreases s.len(),
{
    if s.len() > 0 {
        lemma_view_stmts(s.drop_first());
        assert forall|i: int| 0 <= i < s.len() implies #[trigger] view_stmts(s)[i] == view_stmt(
            s[i],
        ) by {
            if i > 0 {
                assert(s.drop_first()[i - 1] == s[i]);
            }
        }
    }
}

#[derive(Debug)]
pub struct Constant {
    pub name: String,
    pub value: Expr,
    pub span: Span,
}

pub struct ConstantV {
    pub name: Seq<char>,
    pub value: ExprV,
    pub span: Span,
}

impl View for Constant {
    type V = ConstantV;

    open spec fn view(&self) -> ConstantV {
        ConstantV { name: self.name@, value: self.value@, span: self.span }
    }
}

#[derive(Debug, Clone)]
pub struct Field {
    pub name: String,
    pub field_type: Type,
    pub span: Span,
}

pub struct FieldV {
    pub name: Seq<char>,
    pub field_type: TypeV,
    pub span: Span,
}

impl View for Field {
    type V = FieldV;

    open spec fn view(&self) -> FieldV {
        FieldV { name: self.name@, field_type: self.field_type@, span: self.span }
    }
}

#[derive(Debug, Clone)]
pub struct StructDef {
    pub name: String,
    pub fields: Vec<Field>,
    pub span: Span,
}

pub struct StructDefV {
    pub name: Seq<char>,
    pub fields: Seq<FieldV>,
    pub span: Span,
}

impl View for StructDef {
    type V = StructDefV;

    open spec fn view(&self) -> StructDefV {
        StructDefV { name: self.name@, fields: self.fields@.map_values(|f: Field| f@), span: self.span }
    }
}

#[derive(Debug, Clone)]
pub struct Param {
    pub name: String,
    pub param_type: Type,
    pub span: Span,
}

pub struct ParamV {
    pub name: Seq<char>,
    pub param_type: TypeV,
    pub span: Span,
}

impl View for Param {
    type V = ParamV;

    open spec fn view(&self) -> ParamV {
        ParamV { name: self.name@, param_type: self.param_type@, span: self.span }
    }
}

#[derive(Debug)]
pub struct Function {
    pub name: String,
    /// The struct a method belongs to.
    pub struct_name: Option<String>,
    pub params: Vec<Param>,
    pub return_type: Type,
    pub body: Vec<Stmt>,
    pub span: Span,
}

pub struct FunctionV {
    pub name: Seq<char>,
    pub struct_name: Option<Seq<char>>,
    pub params: Seq<ParamV>,
    pub return_type: TypeV,
    pub body: Seq<StmtV>,
    pub span: Span,
}

pub open spec fn view_opt_string(s: Option<String>) -> Option<Seq<char>> {
    match s {
        Some(s) => Some(s@),
        None => None,
    }
}

impl View for Function {
    type V = FunctionV;

    open spec fn view(&self) -> FunctionV {
        FunctionV {
            name: self.name@,
            struct_name: view_opt_string(self.struct_name),
            params: self.params@.map_values(|p: Param| p@),
            return_type: self.return_type@,
            body: view_stmts(self.body@),
            span: self.span,
        }
    }
}

#[derive(Debug)]
pub struct Program {
    pub imports: Vec<String>,
    pub structs: Vec<StructDef>,
    pub constants: Vec<Constant>,
    pub functions: Vec<Function>,
}

pub struct ProgramV {
    pub imports: Seq<Seq<char>>,
    pub structs: Seq<StructDefV>,
    pub constants: Seq<ConstantV>,
    pub functions: Seq<FunctionV>,
}

impl View for Program {
    type V = ProgramV;

    open spec fn view(&self) -> ProgramV {
        ProgramV {
            imports: self.imports@.map_values(|s: String| s@),
            structs: self.structs@.map_values(|s: StructDef| s@),
            constants: self.constants@.map_values(|c: Constant| c@),
            functions: self.functions@.map_values(|f: Function| f@),
        }
    }
}


pub proof fn lemma_view_exprs_push(s: Seq<Expr>, x: Expr)
    ensures
        view_exprs(s.push(x)) == view_exprs(s).push(view_expr(x)),
{
    lemma_view_exprs(s.push(x));
    lemma_view_exprs(s);
    assert forall|i: int| 0 <= i < s.len() + 1 implies view_exprs(s.push(x))[i] == view_exprs(s).push(view_expr(x))[i] by {
        if i < s.len() {
            assert(s.push(x)[i] == s[i]);
        }
    }
    assert(view_exprs(s.push(x)) =~= view_exprs(s).push(view_expr(x)));
}

pub proof fn lemma_view_stmts_push(s: Seq<Stmt>, x: Stmt)
    ensures
        view_stmts(s.push(x)) == view_stmts(s).push(view_stmt(x)),
{
    lemma_view_stmts(s.push(x));
    lemma_view_stmts(s);
    assert forall|i: int| 0 <= i < s.len() + 1 implies view_stmts(s.push(x))[i] == view_stmts(s).push(view_stmt(x))[i] by {
        if i < s.len() {
            assert(s.push(x)[i] == s[i]);
        }
    }
    assert(view_stmts(s.push(x)) =~= view_stmts(s).push(view_stmt(x)));
}

} // verus!
