//! The syntax tree: algebraic statement and expression variants.
//!
//! `Variable`, `Assign`, `This` and `Super` nodes carry a resolution slot
//! (`maybe_distance`): the number of environment frames to hop from the
//! innermost frame to the defining one, or `None` for a global lookup. The
//! parser leaves every slot `None`; the resolver fills them.
//!
//! A function declaration's body is shared (`Rc`) by every closure created
//! from it and is immutable after resolution.

use std::rc::Rc;
use vstd::prelude::*;
use crate::loxtype::LoxType;

verus! {

#[derive(Debug)]
pub struct NilExpression;

/// A literal value in the source: a number, a string, or a boolean.
#[derive(Debug)]
pub struct LiteralExpression(pub LoxType);

#[derive(Debug)]
pub struct NegExpression {
    pub expression: Box<Expr>,
    pub line: u32,
}

#[derive(Debug)]
pub struct NotExpression(pub Box<Expr>);

#[derive(Debug)]
pub struct GroupingExpression(pub Box<Expr>);

#[derive(Debug, Clone, Copy, PartialEq, Eq, Structural)]
pub enum BinaryOperator {
    Add,
    Substract,
    Multiply,
    Divide,
    Equal,
    NotEqual,
    Less,
    LessOrEqual,
    Greater,
    GreaterOrEqual,
}

#[derive(Debug)]
pub struct BinaryExpression {
    pub left: Box<Expr>,
    pub right: Box<Expr>,
    pub operator: BinaryOperator,
    pub line: u32,
}

#[derive(Debug)]
pub struct VariableExpression {
    pub name: String,
    pub maybe_distance: Option<u32>,
    pub line: u32,
}

#[derive(Debug)]
pub struct AssignExpression {
    pub name: String,
    pub value: Box<Expr>,
    pub maybe_distance: Option<u32>,
    pub line: u32,
}

#[derive(Debug, Clone, Copy, PartialEq, Eq, Structural)]
pub enum LogicalOperator {
    And,
    Or,
}

#[derive(Debug)]
pub struct LogicalExpression {
    pub left: Box<Expr>,
    pub right: Box<Expr>,
    pub operator: LogicalOperator,
}

#[derive(Debug)]
pub struct CallExpression {
    pub callee: Box<Expr>,
    pub arguments: Vec<Expr>,
    pub line: u32,
}

/// Property read: `object.name`.
#[derive(Debug)]
pub struct GetExpression {
    pub object: Box<Expr>,
    pub name: String,
    pub line: u32,
}

/// Property write: `object.name = value`.
#[derive(Debug)]
pub struct SetExpression {
    pub object: Box<Expr>,
    pub name: String,
    pub value: Box<Expr>,
    pub line: u32,
}

#[derive(Debug)]
pub struct ThisExpression {
    pub maybe_distance: Option<u32>,
    pub line: u32,
}

/// `super.method` inside a subclass method.
#[derive(Debug)]
pub struct SuperExpression {
    pub method: String,
    pub maybe_distance: Option<u32>,
    pub line: u32,
}

/// An expression node.
#[derive(Debug)]
pub enum Expr {
    Nil(NilExpression),
    Literal(LiteralExpression),
    Neg(NegExpression),
    Not(NotExpression),
    Grouping(GroupingExpression),
    Binary(BinaryExpression),
    Variable(VariableExpression),
    Assign(AssignExpression),
    Logical(LogicalExpression),
    Call(CallExpression),
    Get(GetExpression),
    SetProp(SetExpression),
    This(ThisExpression),
    Super(SuperExpression),
}

#[derive(Debug)]
pub struct PrintStatement {
    pub expression: Box<Expr>,
    pub line: u32,
}

#[derive(Debug)]
pub struct ExpressionStatement(pub Box<Expr>);

#[derive(Debug)]
pub struct VarStatement {
    pub name: String,
    pub initializer: Option<Box<Expr>>,
    pub line: u32,
}

#[derive(Debug)]
pub struct BlockStatement {
    pub statements: Vec<Stmt>,
}

#[derive(Debug)]
pub struct IfStatement {
    pub condition: Box<Expr>,
    pub then_branch: Box<Stmt>,
    pub else_branch: Option<Box<Stmt>>,
}

#[derive(Debug)]
pub struct WhileStatement {
    pub condition: Box<Expr>,
    pub body: Box<Stmt>,
}

#[derive(Debug)]
pub struct Parameter {
    pub name: String,
    pub line: u32,
}

/// A function declaration; the body is shared by every closure made of it.
#[derive(Debug)]
pub struct FunctionStatement {
    pub name: String,
    pub parameters: Vec<Parameter>,
    pub statements: Rc<Vec<Stmt>>,
    pub line: u32,
}

#[derive(Debug)]
pub struct ReturnStatement {
    pub maybe_expression: Option<Box<Expr>>,
    pub line: u32,
}

/// A class declaration; methods are shared with the class object built of it.
#[derive(Debug)]
pub struct ClassStatement {
    pub name: String,
    pub methods: Rc<Vec<FunctionStatement>>,
    pub maybe_superclass: Option<VariableExpression>,
    pub line: u32,
}

/// A statement node.
#[derive(Debug)]
pub enum Stmt {
    Print(PrintStatement),
    Expression(ExpressionStatement),
    Var(VarStatement),
    Block(BlockStatement),
    If(IfStatement),
    While(WhileStatement),
    Function(FunctionStatement),
    Return(ReturnStatement),
    Class(ClassStatement),
}

} // verus!

verus! {

/// Mathematical image of a `VariableExpression`.
#[verifier::ext_equal]
pub struct VariableExpressionView {
    pub name: Seq<char>,
    pub maybe_distance: Option<u32>,
    pub line: u32,
}

/// Mathematical image of a `Parameter`.
#[verifier::ext_equal]
pub struct ParameterView {
    pub name: Seq<char>,
    pub line: u32,
}

/// Mathematical image of an `Expr`.
#[verifier::ext_equal]
pub enum ExprView {
    Nil,
    Literal(crate::loxtype::LoxTypeView),
    Neg { expression: Box<ExprView>, line: u32 },
    Not(Box<ExprView>),
    Grouping(Box<ExprView>),
    Binary { left: Box<ExprView>, right: Box<ExprView>, operator: BinaryOperator, line: u32 },
    Variable(VariableExpressionView),
    Assign { name: Seq<char>, value: Box<ExprView>, maybe_distance: Option<u32>, line: u32 },
    Logical { left: Box<ExprView>, right: Box<ExprView>, operator: LogicalOperator },
    Call { callee: Box<ExprView>, arguments: Seq<ExprView>, line: u32 },
    Get { object: Box<ExprView>, name: Seq<char>, line: u32 },
    SetProp { object: Box<ExprView>, name: Seq<char>, value: Box<ExprView>, line: u32 },
    This { maybe_distance: Option<u32>, line: u32 },
    Super { method: Seq<char>, maybe_distance: Option<u32>, line: u32 },
}

/// Mathematical image of a `FunctionStatement`.
#[verifier::ext_equal]
pub struct FunctionStatementView {
    pub name: Seq<char>,
    pub parameters: Seq<ParameterView>,
    pub statements: Seq<StmtView>,
    pub line: u32,
}

/// Mathematical image of a `Stmt`.
#[verifier::ext_equal]
pub enum StmtView {
    Print { expression: Box<ExprView>, line: u32 },
    Expression(Box<ExprView>),
    Var { name: Seq<char>, initializer: Option<Box<ExprView>>, line: u32 },
    Block { statements: Seq<StmtView> },
    If { condition: Box<ExprView>, then_branch: Box<StmtView>, else_branch: Option<Box<StmtView>> },
    While { condition: Box<ExprView>, body: Box<StmtView> },
    Function(FunctionStatementView),
    Return { maybe_expression: Option<Box<ExprView>>, line: u32 },
    Class {
        name: Seq<char>,
        methods: Seq<FunctionStatementView>,
        maybe_superclass: Option<VariableExpressionView>,
        line: u32,
    },
}

impl View for VariableExpression {
    type V = VariableExpressionView;

    open spec fn view(&self) -> VariableExpressionView {
        VariableExpressionView {
            name: self.name@,
            maybe_distance: self.maybe_distance,
            line: self.line,
        }
    }
}

impl View for Parameter {
    type V = ParameterView;

    open spec fn view(&self) -> ParameterView {
        ParameterView { name: self.name@, line: self.line }
    }
}

/// The image of an expression.
pub open spec fn expr_view(e: Expr) -> ExprView
    decreases e,
{
    match e {
        Expr::Nil(_) => ExprView::Nil,
        Expr::Literal(l) => ExprView::Literal(l.0@),
        Expr::Neg(n) => ExprView::Neg {
            expression: Box::new(expr_view(*n.expression)),
            line: n.line,
        },
        Expr::Not(n) => ExprView::Not(Box::new(expr_view(*n.0))),
        Expr::Grouping(g) => ExprView::Grouping(Box::new(expr_view(*g.0))),
        Expr::Binary(b) => ExprView::Binary {
            left: Box::new(expr_view(*b.left)),
            right: Box::new(expr_view(*b.right)),
            operator: b.operator,
            line: b.line,
        },
        Expr::Variable(v) => ExprView::Variable(v@),
        Expr::Assign(a) => ExprView::Assign {
            name: a.name@,
            value: Box::new(expr_view(*a.value)),
            maybe_distance: a.maybe_distance,
            line: a.line,
        },
        Expr::Logical(l) => ExprView::Logical {
            left: Box::new(expr_view(*l.left)),
            right: Box::new(expr_view(*l.right)),
            operator: l.operator,
        },
        Expr::Call(c) => ExprView::Call {
            callee: Box::new(expr_view(*c.callee)),
            arguments: exprs_view(c.arguments@),
            line: c.line,
        },
        Expr::Get(g) => ExprView::Get {
            object: Box::new(expr_view(*g.object)),
            name: g.name@,
            line: g.line,
        },
        Expr::SetProp(s) => ExprView::SetProp {
            object: Box::new(expr_view(*s.object)),
            name: s.name@,
            value: Box::new(expr_view(*s.value)),
            line: s.line,
        },
        Expr::This(t) => ExprView::This { maybe_distance: t.maybe_distance, line: t.line },
        Expr::Super(s) => ExprView::Super {
            method: s.method@,
            maybe_distance: s.maybe_distance,
            line: s.line,
        },
    }
}

/// The images of a list of expressions.
pub open spec fn exprs_view(es: Seq<Expr>) -> Seq<ExprView>
    decreases es,
{
    if es.len() == 0 {
        Seq::<ExprView>::empty()
    } else {
        seq![expr_view(es[0])] + exprs_view(es.subrange(1, es.len() as int))
    }
}

/// The images of a list of parameters.
pub open spec fn params_view(ps: Seq<Parameter>) -> Seq<ParameterView> {
    ps.map_values(|p: Parameter| p@)
}

/// The image of a statement.
pub open spec fn stmt_view(s: Stmt) -> StmtView
    decreases s,
{
    match s {
        Stmt::Print(p) => StmtView::Print {
            expression: Box::new(expr_view(*p.expression)),
            line: p.line,
        },
        Stmt::Expression(e) => StmtView::Expression(Box::new(expr_view(*e.0))),
        Stmt::Var(v) => StmtView::Var {
            name: v.name@,
            initializer: match v.initializer {
                Some(e) => Some(Box::new(expr_view(*e))),
                None => None,
            },
            line: v.line,
        },
        Stmt::Block(b) => StmtView::Block { statements: stmts_view(b.statements@) },
        Stmt::If(i) => StmtView::If {
            condition: Box::new(expr_view(*i.condition)),
            then_branch: Box::new(stmt_view(*i.then_branch)),
            else_branch: match i.else_branch {
                Some(e) => Some(Box::new(stmt_view(*e))),
                None => None,
            },
        },
        Stmt::While(w) => StmtView::While {
            condition: Box::new(expr_view(*w.condition)),
            body: Box::new(stmt_view(*w.body)),
        },
        Stmt::Function(f) => StmtView::Function(function_view(f)),
        Stmt::Return(r) => StmtView::Return {
            maybe_expression: match r.maybe_expression {
                Some(e) => Some(Box::new(expr_view(*e))),
                None => None,
            },
            line: r.line,
        },
        Stmt::Class(c) => StmtView::Class {
            name: c.name@,
            methods: functions_view(c.methods@),
            maybe_superclass: match c.maybe_superclass {
                Some(v) => Some(v@),
                None => None,
            },
            line: c.line,
        },
    }
}

/// The image of a function declaration.
pub open spec fn function_view(f: FunctionStatement) -> FunctionStatementView
    decreases f,
{
    FunctionStatementView {
        name: f.name@,
        parameters: params_view(f.parameters@),
        statements: stmts_view(f.statements@),
        line: f.line,
    }
}

/// The images of a list of statements.
pub open spec fn stmts_view(ss: Seq<Stmt>) -> Seq<StmtView>
    decreases ss,
{
    if ss.len() == 0 {
        Seq::<StmtView>::empty()
    } else {
        seq![stmt_view(ss[0])] + stmts_view(ss.subrange(1, ss.len() as int))
    }
}

/// The images of a list of method declarations.
pub open spec fn functions_view(fs: Seq<FunctionStatement>) -> Seq<FunctionStatementView>
    decreases fs,
{
    if fs.len() == 0 {
        Seq::<FunctionStatementView>::empty()
    } else {
        seq![function_view(fs[0])] + functions_view(fs.subrange(1, fs.len() as int))
    }
}

pub proof fn lemma_exprs_view_index(es: Seq<Expr>, i: int)
    requires
        0 <= i < es.len(),
    ensures
        exprs_view(es).len() == es.len(),
        exprs_view(es)[i] == expr_view(es[i]),
    decreases es.len(),
{
    lemma_exprs_view_len(es);
    if i > 0 {
        lemma_exprs_view_index(es.subrange(1, es.len() as int), i - 1);
    }
}

pub proof fn lemma_exprs_view_len(es: Seq<Expr>)
    ensures
        exprs_view(es).len() == es.len(),
    decreases es.len(),
{
    if es.len() > 0 {
        lemma_exprs_view_len(es.subrange(1, es.len() as int));
    }
}

pub proof fn lemma_stmts_view_len(ss: Seq<Stmt>)
    ensures
        stmts_view(ss).len() == ss.len(),
    decreases ss.len(),
{
    if ss.len() > 0 {
        lemma_stmts_view_len(ss.subrange(1, ss.len() as int));
    }
}

pub proof fn lemma_stmts_view_index(ss: Seq<Stmt>, i: int)
    requires
        0 <= i < ss.len(),
    ensures
        stmts_view(ss).len() == ss.len(),
        stmts_view(ss)[i] == stmt_view(ss[i]),
    decreases ss.len(),
{
    lemma_stmts_view_len(ss);
    if i > 0 {
        lemma_stmts_view_index(ss.subrange(1, ss.len() as int), i - 1);
    }
}

pub proof fn lemma_functions_view_len(fs: Seq<FunctionStatement>)
    ensures
        functions_view(fs).len() == fs.len(),
    decreases fs.len(),
{
    if fs.len() > 0 {
        lemma_functions_view_len(fs.subrange(1, fs.len() as int));
    }
}

pub proof fn lemma_functions_view_index(fs: Seq<FunctionStatement>, i: int)
    requires
        0 <= i < fs.len(),
    ensures
        functions_view(fs).len() == fs.len(),
        functions_view(fs)[i] == function_view(fs[i]),
    decreases fs.len(),
{
    lemma_functions_view_len(fs);
    if i > 0 {
        lemma_functions_view_index(fs.subrange(1, fs.len() as int), i - 1);
    }
}

} // verus!

verus! {

pub proof fn lemma_stmts_view_push(ss: Seq<Stmt>, s: Stmt)
    ensures
        stmts_view(ss.push(s)) == stmts_view(ss).push(stmt_view(s)),
    decreases ss.len(),
{
    if ss.len() == 0 {
        assert(ss.push(s)[0] == s);
        assert(ss.push(s).subrange(1, 1) =~= Seq::<Stmt>::empty());
        assert(stmts_view(Seq::<Stmt>::empty()) =~= Seq::<StmtView>::empty());
        assert(stmts_view(ss.push(s)) =~= stmts_view(ss).push(stmt_view(s)));
    } else {
        let t = ss.subrange(1, ss.len() as int);
        assert(ss.push(s)[0] == ss[0]);
        assert(ss.push(s).subrange(1, ss.len() as int + 1) =~= t.push(s));
        lemma_stmts_view_push(t, s);
        assert(stmts_view(ss.push(s)) == seq![stmt_view(ss[0])] + stmts_view(t).push(
            stmt_view(s),
        ));
        assert(stmts_view(ss) == seq![stmt_view(ss[0])] + stmts_view(t));
        assert(stmts_view(ss.push(s)) =~= stmts_view(ss).push(stmt_view(s)));
    }
}

pub proof fn lemma_exprs_view_push(es: Seq<Expr>, e: Expr)
    ensures
        exprs_view(es.push(e)) == exprs_view(es).push(expr_view(e)),
    decreases es.len(),
{
    if es.len() == 0 {
        assert(es.push(e)[0] == e);
        assert(es.push(e).subrange(1, 1) =~= Seq::<Expr>::empty());
        assert(exprs_view(Seq::<Expr>::empty()) =~= Seq::<ExprView>::empty());
        assert(exprs_view(es.push(e)) =~= exprs_view(es).push(expr_view(e)));
    } else {
        let t = es.subrange(1, es.len() as int);
        assert(es.push(e)[0] == es[0]);
        assert(es.push(e).subrange(1, es.len() as int + 1) =~= t.push(e));
        lemma_exprs_view_push(t, e);
        assert(exprs_view(es.push(e)) == seq![expr_view(es[0])] + exprs_view(t).push(
            expr_view(e),
        ));
        assert(exprs_view(es) == seq![expr_view(es[0])] + exprs_view(t));
        assert(exprs_view(es.push(e)) =~= exprs_view(es).push(expr_view(e)));
    }
}

pub proof fn lemma_functions_view_push(fs: Seq<FunctionStatement>, f: FunctionStatement)
    ensures
        functions_view(fs.push(f)) == functions_view(fs).push(function_view(f)),
    decreases fs.len(),
{
    if fs.len() == 0 {
        assert(fs.push(f)[0] == f);
        assert(fs.push(f).subrange(1, 1) =~= Seq::<FunctionStatement>::empty());
        assert(functions_view(Seq::<FunctionStatement>::empty()) =~= Seq::<
            FunctionStatementView,
        >::empty());
        assert(functions_view(fs.push(f)) =~= functions_view(fs).push(function_view(f)));
    } else {
        let t = fs.subrange(1, fs.len() as int);
        assert(fs.push(f)[0] == fs[0]);
        assert(fs.push(f).subrange(1, fs.len() as int + 1) =~= t.push(f));
        lemma_functions_view_push(t, f);
        assert(functions_view(fs.push(f)) == seq![function_view(fs[0])] + functions_view(
            t,
        ).push(function_view(f)));
        assert(functions_view(fs) == seq![function_view(fs[0])] + functions_view(t));
        assert(functions_view(fs.push(f)) =~= functions_view(fs).push(function_view(f)));
    }
}

} // verus!
