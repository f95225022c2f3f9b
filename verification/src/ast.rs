//! Syntax trees of the scripting language, and their mathematical views.
//!
//! Every tree type has a ghost counterpart whose strings are `Seq<char>` and
//! whose lists are `Seq`; contracts throughout the crate speak of those.

use vstd::prelude::*;

verus! {

/// A literal as written in the source.
///
/// A floating-point literal keeps its decimal text (digits with one `.`);
/// it is converted to a number only when it is evaluated.
#[derive(Debug, Clone, PartialEq)]
pub enum Literal {
    Int(i64),
    Float(String),
    Bool(bool),
    String(String),
    Nil,
}

/// An expression.
#[allow(inconsistent_fields)]
#[derive(Debug, PartialEq)]
pub enum Expr {
    Literal(Literal),
    Ident(String),
    Unary { op: UnaryOp, expr: Box<Expr> },
    Binary { left: Box<Expr>, op: BinaryOp, right: Box<Expr> },
    Call { callee: Box<Expr>, args: Vec<Expr> },
    Member { object: Box<Expr>, field: String },
    Index { object: Box<Expr>, index: Box<Expr> },
    TableLiteral(Vec<TableField>),
}

/// A prefix operator.
#[derive(Debug, Clone, Copy, PartialEq, Eq, Structural)]
pub enum UnaryOp {
    Negate,
    Not,
}

/// An infix operator.
#[derive(Debug, Clone, Copy, PartialEq, Eq, Structural)]
pub enum BinaryOp {
    Add,
    Sub,
    Mul,
    Div,
    Mod,
    Equal,
    NotEqual,
    Less,
    LessEqual,
    Greater,
    GreaterEqual,
    And,
    Or,
}

/// One field of a table literal: with a key, or keyed by its position.
#[derive(Debug, PartialEq)]
pub enum TableField {
    KeyValue { key: String, value: Expr },
    Value(Expr),
}

/// A parameter of a function or an event.
#[derive(Debug, Clone, PartialEq)]
pub struct Param {
    pub name: String,
}

/// A statement.
#[derive(Debug, PartialEq)]
pub enum Stmt {
    VarDecl { name: String, init: Expr },
    Assignment { name: String, value: Expr },
    Expr(Expr),
    Block(Vec<Stmt>),
    If {
        condition: Expr,
        then_branch: Box<Stmt>,
        elif_branches: Vec<(Expr, Stmt)>,
        else_branch: Option<Box<Stmt>>,
    },
    While { condition: Expr, body: Box<Stmt> },
    For { var_name: String, start: Expr, end: Expr, step: Option<Expr>, body: Box<Stmt> },
    Break,
    Continue,
    Return(Option<Expr>),
    FuncDecl(FuncDecl),
    ObjectDecl(ObjectDecl),
}

/// A function declaration.
#[derive(Debug, PartialEq)]
pub struct FuncDecl {
    pub name: String,
    pub params: Vec<Param>,
    pub body: Box<Stmt>,
}

/// An event declaration. Events are parsed and kept, and never run.
#[derive(Debug, PartialEq)]
pub struct EventDecl {
    pub name: String,
    pub params: Vec<Param>,
    pub body: Box<Stmt>,
}

/// An object declaration.
#[derive(Debug, PartialEq)]
pub struct ObjectDecl {
    pub name: String,
    pub members: Vec<ObjectMember>,
}

/// A member of an object.
#[derive(Debug, PartialEq)]
pub enum ObjectMember {
    Var(Stmt),
    Method(FuncDecl),
    Event(EventDecl),
}

/// A program: its statements in order.
#[derive(Debug, PartialEq)]
pub struct Program {
    pub body: Vec<Stmt>,
}

/// A literal as a mathematical value.
pub ghost enum SpecLiteral {
    Int(i64),
    Float(Seq<char>),
    Bool(bool),
    String(Seq<char>),
    Nil,
}

/// An expression as a mathematical value.
#[allow(inconsistent_fields)]
pub ghost enum SpecExpr {
    Literal(SpecLiteral),
    Ident(Seq<char>),
    Unary { op: UnaryOp, expr: Box<SpecExpr> },
    Binary { left: Box<SpecExpr>, op: BinaryOp, right: Box<SpecExpr> },
    Call { callee: Box<SpecExpr>, args: Seq<SpecExpr> },
    Member { object: Box<SpecExpr>, field: Seq<char> },
    Index { object: Box<SpecExpr>, index: Box<SpecExpr> },
    TableLiteral(Seq<SpecTableField>),
}

/// A field of a table literal as a mathematical value.
pub ghost enum SpecTableField {
    KeyValue { key: Seq<char>, value: SpecExpr },
    Value(SpecExpr),
}

/// A statement as a mathematical value.
pub ghost enum SpecStmt {
    VarDecl { name: Seq<char>, init: SpecExpr },
    Assignment { name: Seq<char>, value: SpecExpr },
    Expr(SpecExpr),
    Block(Seq<SpecStmt>),
    If {
        condition: SpecExpr,
        then_branch: Box<SpecStmt>,
        elif_branches: Seq<(SpecExpr, SpecStmt)>,
        else_branch: Option<Box<SpecStmt>>,
    },
    While { condition: SpecExpr, body: Box<SpecStmt> },
    For {
        var_name: Seq<char>,
        start: SpecExpr,
        end: SpecExpr,
        step: Option<SpecExpr>,
        body: Box<SpecStmt>,
    },
    Break,
    Continue,
    Return(Option<SpecExpr>),
    FuncDecl(SpecFuncDecl),
    ObjectDecl(SpecObjectDecl),
}

/// A function declaration as a mathematical value.
pub ghost struct SpecFuncDecl {
    pub name: Seq<char>,
    pub params: Seq<Seq<char>>,
    pub body: Box<SpecStmt>,
}

/// An event declaration as a mathematical value.
pub ghost struct SpecEventDecl {
    pub name: Seq<char>,
    pub params: Seq<Seq<char>>,
    pub body: Box<SpecStmt>,
}

/// An object declaration as a mathematical value.
pub ghost struct SpecObjectDecl {
    pub name: Seq<char>,
    pub members: Seq<SpecObjectMember>,
}

/// A member of an object as a mathematical value.
pub ghost enum SpecObjectMember {
    Var(SpecStmt),
    Method(SpecFuncDecl),
    Event(SpecEventDecl),
}

/// A program as a mathematical value.
pub ghost struct SpecProgram {
    pub body: Seq<SpecStmt>,
}

impl Literal {
    /// This tree as a mathematical value.
    pub open spec fn view(&self) -> SpecLiteral {
        match self {
            Literal::Int(i) => SpecLiteral::Int(*i),
            Literal::Float(text) => SpecLiteral::Float(text@),
            Literal::Bool(b) => SpecLiteral::Bool(*b),
            Literal::String(s) => SpecLiteral::String(s@),
            Literal::Nil => SpecLiteral::Nil,
        }
    }
}

impl Expr {
    /// This tree as a mathematical value.
    pub open spec fn view(&self) -> SpecExpr
        decreases self,
    {
        match self {
            Expr::Literal(lit) => SpecExpr::Literal(lit.view()),
            Expr::Ident(name) => SpecExpr::Ident(name@),
            Expr::Unary { op, expr } => SpecExpr::Unary { op: *op, expr: Box::new(expr.view()) },
            Expr::Binary { left, op, right } => SpecExpr::Binary {
                left: Box::new(left.view()),
                op: *op,
                right: Box::new(right.view()),
            },
            Expr::Call { callee, args } => SpecExpr::Call {
                callee: Box::new(callee.view()),
                args: exprs_view(args@),
            },
            Expr::Member { object, field } => SpecExpr::Member {
                object: Box::new(object.view()),
                field: field@,
            },
            Expr::Index { object, index } => SpecExpr::Index {
                object: Box::new(object.view()),
                index: Box::new(index.view()),
            },
            Expr::TableLiteral(fields) => SpecExpr::TableLiteral(fields_view(fields@)),
        }
    }
}

/// The views of a list of expressions.
pub open spec fn exprs_view(exprs: Seq<Expr>) -> Seq<SpecExpr>
    decreases exprs,
{
    Seq::new(
        exprs.len(),
        |i: int|
            if 0 <= i < exprs.len() {
                exprs[i].view()
            } else {
                SpecExpr::Literal(SpecLiteral::Nil)
            },
    )
}

/// The views of the fields of a table literal.
pub open spec fn fields_view(fields: Seq<TableField>) -> Seq<SpecTableField>
    decreases fields,
{
    Seq::new(
        fields.len(),
        |i: int|
            if 0 <= i < fields.len() {
                fields[i].view()
            } else {
                SpecTableField::Value(SpecExpr::Literal(SpecLiteral::Nil))
            },
    )
}

impl TableField {
    /// This tree as a mathematical value.
    pub open spec fn view(&self) -> SpecTableField
        decreases self,
    {
        match self {
            TableField::KeyValue { key, value } => SpecTableField::KeyValue {
                key: key@,
                value: value.view(),
            },
            TableField::Value(value) => SpecTableField::Value(value.view()),
        }
    }
}

impl Param {
    /// This tree as a mathematical value.
    pub open spec fn view(&self) -> Seq<char> {
        self.name@
    }
}

/// The names of a parameter list, in order.
pub open spec fn params_view(params: Seq<Param>) -> Seq<Seq<char>> {
    Seq::new(params.len(), |i: int| params[i].name@)
}

impl Stmt {
    /// This tree as a mathematical value.
    pub open spec fn view(&self) -> SpecStmt
        decreases self,
    {
        match self {
            Stmt::VarDecl { name, init } => SpecStmt::VarDecl { name: name@, init: init.view() },
            Stmt::Assignment { name, value } => SpecStmt::Assignment {
                name: name@,
                value: value.view(),
            },
            Stmt::Expr(e) => SpecStmt::Expr(e.view()),
            Stmt::Block(stmts) => SpecStmt::Block(stmts_view(stmts@)),
            Stmt::If { condition, then_branch, elif_branches, else_branch } => SpecStmt::If {
                condition: condition.view(),
                then_branch: Box::new(then_branch.view()),
                elif_branches: elifs_view(elif_branches@),
                else_branch: match else_branch {
                    Some(b) => Some(Box::new(b.view())),
                    None => None,
                },
            },
            Stmt::While { condition, body } => SpecStmt::While {
                condition: condition.view(),
                body: Box::new(body.view()),
            },
            Stmt::For { var_name, start, end, step, body } => SpecStmt::For {
                var_name: var_name@,
                start: start.view(),
                end: end.view(),
                step: match step {
                    Some(e) => Some(e.view()),
                    None => None,
                },
                body: Box::new(body.view()),
            },
            Stmt::Break => SpecStmt::Break,
            Stmt::Continue => SpecStmt::Continue,
            Stmt::Return(value) => SpecStmt::Return(
                match value {
                    Some(e) => Some(e.view()),
                    None => None,
                },
            ),
            Stmt::FuncDecl(f) => SpecStmt::FuncDecl(f.view()),
            Stmt::ObjectDecl(o) => SpecStmt::ObjectDecl(o.view()),
        }
    }
}

/// The views of a list of statements.
pub open spec fn stmts_view(stmts: Seq<Stmt>) -> Seq<SpecStmt>
    decreases stmts,
{
    Seq::new(
        stmts.len(),
        |i: int|
            if 0 <= i < stmts.len() {
                stmts[i].view()
            } else {
                SpecStmt::Break
            },
    )
}

/// The views of the `elif` branches of an `if`.
pub open spec fn elifs_view(branches: Seq<(Expr, Stmt)>) -> Seq<(SpecExpr, SpecStmt)>
    decreases branches,
{
    Seq::new(
        branches.len(),
        |i: int|
            if 0 <= i < branches.len() {
                (branches[i].0.view(), branches[i].1.view())
            } else {
                (SpecExpr::Literal(SpecLiteral::Nil), SpecStmt::Break)
            },
    )
}

/// The views of the members of an object.
pub open spec fn members_view(members: Seq<ObjectMember>) -> Seq<SpecObjectMember>
    decreases members,
{
    Seq::new(
        members.len(),
        |i: int|
            if 0 <= i < members.len() {
                members[i].view()
            } else {
                SpecObjectMember::Var(SpecStmt::Break)
            },
    )
}

impl FuncDecl {
    /// This tree as a mathematical value.
    pub open spec fn view(&self) -> SpecFuncDecl
        decreases self,
    {
        SpecFuncDecl {
            name: self.name@,
            params: params_view(self.params@),
            body: Box::new(self.body.view()),
        }
    }
}

impl EventDecl {
    /// This tree as a mathematical value.
    pub open spec fn view(&self) -> SpecEventDecl
        decreases self,
    {
        SpecEventDecl {
            name: self.name@,
            params: params_view(self.params@),
            body: Box::new(self.body.view()),
        }
    }
}

impl ObjectMember {
    /// This tree as a mathematical value.
    pub open spec fn view(&self) -> SpecObjectMember
        decreases self,
    {
        match self {
            ObjectMember::Var(s) => SpecObjectMember::Var(s.view()),
            ObjectMember::Method(f) => SpecObjectMember::Method(f.view()),
            ObjectMember::Event(e) => SpecObjectMember::Event(e.view()),
        }
    }
}

impl ObjectDecl {
    /// This tree as a mathematical value.
    pub open spec fn view(&self) -> SpecObjectDecl
        decreases self,
    {
        SpecObjectDecl {
            name: self.name@,
            members: members_view(self.members@),
        }
    }
}

impl Program {
    /// This tree as a mathematical value.
    pub open spec fn view(&self) -> SpecProgram {
        SpecProgram { body: stmts_view(self.body@) }
    }
}

/// The view of a function declaration as a statement.
pub proof fn lemma_func_stmt_view(f: FuncDecl)
    ensures
        Stmt::FuncDecl(f).view() == SpecStmt::FuncDecl(f.view()),
{
}

/// The view of an object declaration as a statement.
pub proof fn lemma_object_stmt_view(o: ObjectDecl)
    ensures
        Stmt::ObjectDecl(o).view() == SpecStmt::ObjectDecl(o.view()),
{
}

/// The view of a block.
pub proof fn lemma_block_view(stmts: Vec<Stmt>)
    ensures
        Stmt::Block(stmts).view() == SpecStmt::Block(stmts_view(stmts@)),
{
}

} // verus!
