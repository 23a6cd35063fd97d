//! The abstract syntax tree: what the parser produces and the evaluator walks.

use vstd::prelude::*;

verus! {

/// An expression of the language.
#[derive(Debug)]
pub enum Expr {
    Ident(String),
    /// A number, kept as it was written: its value is the double nearest to this numeral.
    NumberLiteral(String),
    StringLiteral(String),
    BoolLiteral(bool),
    ArrayLiteral(Vec<Expr>),
    /// The fields of an object literal, in the order written. No key occurs twice.
    ObjectLiteral(Vec<Field>),
    BinaryOp(BinaryOp),
    FnCall(FnCall),
    Member(Member),
}

/// One `key: value` entry of an object literal.
#[derive(Debug)]
pub struct Field {
    pub key: String,
    pub value: Expr,
}

#[derive(Debug)]
pub struct BinaryOp {
    pub kind: BinaryOpKind,
    pub a: Box<Expr>,
    pub b: Box<Expr>,
}

#[derive(Debug, Clone, Copy, PartialEq, Eq, Structural)]
pub enum BinaryOpKind {
    Add,
    Subtract,
    Multiply,
    Divide,
    Pow,
    GreaterThan,
    LessThan,
    Equals,
}

/// The operator of an assignment: plain `=`, or one of `+=`, `-=`, `*=`, `/=`.
#[derive(Debug, Clone, Copy, PartialEq, Eq, Structural)]
pub enum AssignOpKind {
    NoOp,
    Op(BinaryOpKind),
}

#[derive(Debug)]
pub struct FnCall {
    pub ident: String,
    pub args: Vec<Expr>,
}

#[derive(Debug)]
pub struct Member {
    pub parent: Box<Expr>,
    pub child: Box<Expr>,
}

/// A statement of the language.
#[derive(Debug)]
pub enum Stmt {
    VarDecl(VarDecl),
    VarAssign(VarAssign),
    FnDecl(FnDecl),
    WhileLoop(WhileLoop),
    BlockExit(BlockExit),
    IfElse(IfElse),
    Expr(Expr),
}

#[derive(Debug)]
pub struct VarDecl {
    pub ident: String,
    pub initializer: Expr,
}

#[derive(Debug)]
pub struct VarAssign {
    pub to: Expr,
    pub value: Expr,
    pub op: AssignOpKind,
}

#[derive(Debug)]
pub struct FnDecl {
    pub ident: String,
    pub prop_idents: Vec<String>,
    pub body: Vec<Stmt>,
}

#[derive(Debug)]
pub struct WhileLoop {
    pub condition: Expr,
    pub body: Vec<Stmt>,
}

/// A statement that leaves the enclosing block.
#[derive(Debug)]
pub enum BlockExit {
    FnReturn(Option<Expr>),
    Break,
    Continue,
}

#[derive(Debug)]
pub struct IfElse {
    pub condition: Expr,
    pub true_branch: Vec<Stmt>,
    pub else_branch: Vec<Stmt>,
}

pub type Program = Vec<Stmt>;

/// An expression as a mathematical value.
pub ghost enum ExprView {
    Ident(Seq<char>),
    NumberLiteral(Seq<char>),
    StringLiteral(Seq<char>),
    BoolLiteral(bool),
    ArrayLiteral(Seq<ExprView>),
    ObjectLiteral(Seq<(Seq<char>, ExprView)>),
    BinaryOp { kind: BinaryOpKind, a: Box<ExprView>, b: Box<ExprView> },
    FnCall { ident: Seq<char>, args: Seq<ExprView> },
    Member { parent: Box<ExprView>, child: Box<ExprView> },
}

/// A statement as a mathematical value.
pub ghost enum StmtView {
    VarDecl { ident: Seq<char>, initializer: ExprView },
    VarAssign { to: ExprView, value: ExprView, op: AssignOpKind },
    FnDecl { ident: Seq<char>, prop_idents: Seq<Seq<char>>, body: Seq<StmtView> },
    WhileLoop { condition: ExprView, body: Seq<StmtView> },
    Return(Option<ExprView>),
    Break,
    Continue,
    IfElse { condition: ExprView, true_branch: Seq<StmtView>, else_branch: Seq<StmtView> },
    Expr(ExprView),
}

/// The view of an expression.
pub open spec fn expr_view(e: Expr) -> ExprView
    decreases e,
{
    match e {
        Expr::Ident(name) => ExprView::Ident(name@),
        Expr::NumberLiteral(numeral) => ExprView::NumberLiteral(numeral@),
        Expr::StringLiteral(text) => ExprView::StringLiteral(text@),
        Expr::BoolLiteral(b) => ExprView::BoolLiteral(b),
        Expr::ArrayLiteral(items) => ExprView::ArrayLiteral(
            Seq::new(
                items.len() as nat,
                |i: int|
                    if 0 <= i < items.len() {
                        expr_view(items[i])
                    } else {
                        ExprView::BoolLiteral(false)
                    },
            ),
        ),
        Expr::ObjectLiteral(fields) => ExprView::ObjectLiteral(
            Seq::new(
                fields.len() as nat,
                |i: int|
                    if 0 <= i < fields.len() {
                        (fields[i].key@, expr_view(fields[i].value))
                    } else {
                        (Seq::empty(), ExprView::BoolLiteral(false))
                    },
            ),
        ),
        Expr::BinaryOp(op) => ExprView::BinaryOp {
            kind: op.kind,
            a: Box::new(expr_view(*op.a)),
            b: Box::new(expr_view(*op.b)),
        },
        Expr::FnCall(call) => ExprView::FnCall {
            ident: call.ident@,
            args: Seq::new(
                call.args.len() as nat,
                |i: int|
                    if 0 <= i < call.args.len() {
                        expr_view(call.args[i])
                    } else {
                        ExprView::BoolLiteral(false)
                    },
            ),
        },
        Expr::Member(member) => ExprView::Member {
            parent: Box::new(expr_view(*member.parent)),
            child: Box::new(expr_view(*member.child)),
        },
    }
}

impl View for Expr {
    type V = ExprView;

    open spec fn view(&self) -> ExprView {
        expr_view(*self)
    }
}

/// The views of the statements of a block, in order.
pub open spec fn stmt_views(stmts: Vec<Stmt>) -> Seq<StmtView>
    decreases stmts, 1int,
{
    Seq::new(
        stmts.len() as nat,
        |i: int|
            if 0 <= i < stmts.len() {
                stmt_view(stmts[i])
            } else {
                StmtView::Break
            },
    )
}

/// The view of a statement.
pub open spec fn stmt_view(stmt: Stmt) -> StmtView
    decreases stmt, 0int,
{
    match stmt {
        Stmt::VarDecl(decl) => StmtView::VarDecl {
            ident: decl.ident@,
            initializer: decl.initializer@,
        },
        Stmt::VarAssign(assign) => StmtView::VarAssign {
            to: assign.to@,
            value: assign.value@,
            op: assign.op,
        },
        Stmt::FnDecl(decl) => StmtView::FnDecl {
            ident: decl.ident@,
            prop_idents: decl.prop_idents@.map_values(|name: String| name@),
            body: stmt_views(decl.body),
        },
        Stmt::WhileLoop(w) => StmtView::WhileLoop {
            condition: w.condition@,
            body: stmt_views(w.body),
        },
        Stmt::BlockExit(BlockExit::FnReturn(Some(e))) => StmtView::Return(Some(e@)),
        Stmt::BlockExit(BlockExit::FnReturn(None)) => StmtView::Return(None),
        Stmt::BlockExit(BlockExit::Break) => StmtView::Break,
        Stmt::BlockExit(BlockExit::Continue) => StmtView::Continue,
        Stmt::IfElse(if_else) => StmtView::IfElse {
            condition: if_else.condition@,
            true_branch: stmt_views(if_else.true_branch),
            else_branch: stmt_views(if_else.else_branch),
        },
        Stmt::Expr(e) => StmtView::Expr(e@),
    }
}

impl View for Stmt {
    type V = StmtView;

    open spec fn view(&self) -> StmtView {
        stmt_view(*self)
    }
}

/// A copy of `items`, expression by expression.
pub fn clone_exprs(items: &Vec<Expr>) -> (copy: Vec<Expr>)
    ensures
        copy@.len() == items@.len(),
        forall|i: int| 0 <= i < items@.len() ==> copy@[i]@ == items@[i]@,
    decreases items, 1int,
{
    let mut copy: Vec<Expr> = Vec::new();
    let mut index: usize = 0;
    while index < items.len()
        invariant
            index <= items@.len(),
            copy@.len() == index,
            forall|i: int| 0 <= i < index ==> copy@[i]@ == items@[i]@,
        decreases items@.len() - index,
    {
        copy.push(clone_expr(&items[index]));
        index += 1;
    }
    copy
}

/// A copy of the fields of an object literal.
pub fn clone_fields(fields: &Vec<Field>) -> (copy: Vec<Field>)
    ensures
        copy@.len() == fields@.len(),
        forall|i: int|
            0 <= i < fields@.len() ==> copy@[i].key@ == fields@[i].key@ && copy@[i].value@
                == fields@[i].value@,
    decreases fields, 1int,
{
    let mut copy: Vec<Field> = Vec::new();
    let mut index: usize = 0;
    while index < fields.len()
        invariant
            index <= fields@.len(),
            copy@.len() == index,
            forall|i: int|
                0 <= i < index ==> copy@[i].key@ == fields@[i].key@ && copy@[i].value@
                    == fields@[i].value@,
        decreases fields@.len() - index,
    {
        let field = &fields[index];
        copy.push(Field { key: field.key.clone(), value: clone_expr(&field.value) });
        index += 1;
    }
    copy
}

/// A copy of `e`, all the way down.
pub fn clone_expr(e: &Expr) -> (copy: Expr)
    ensures
        copy@ == e@,
    decreases e, 0int,
{
    match e {
        Expr::Ident(name) => Expr::Ident(name.clone()),
        Expr::NumberLiteral(numeral) => Expr::NumberLiteral(numeral.clone()),
        Expr::StringLiteral(text) => Expr::StringLiteral(text.clone()),
        Expr::BoolLiteral(b) => Expr::BoolLiteral(*b),
        Expr::ArrayLiteral(items) => {
            let copy = Expr::ArrayLiteral(clone_exprs(items));
            assert(copy@->ArrayLiteral_0 =~= e@->ArrayLiteral_0);
            copy
        },
        Expr::ObjectLiteral(fields) => {
            let copy = Expr::ObjectLiteral(clone_fields(fields));
            assert(copy@->ObjectLiteral_0 =~= e@->ObjectLiteral_0);
            copy
        },
        Expr::BinaryOp(op) => Expr::BinaryOp(
            BinaryOp {
                kind: op.kind,
                a: Box::new(clone_expr(&op.a)),
                b: Box::new(clone_expr(&op.b)),
            },
        ),
        Expr::FnCall(call) => {
            let copy = Expr::FnCall(
                FnCall { ident: call.ident.clone(), args: clone_exprs(&call.args) },
            );
            assert(copy@->FnCall_args =~= e@->FnCall_args);
            copy
        },
        Expr::Member(member) => Expr::Member(
            Member {
                parent: Box::new(clone_expr(&member.parent)),
                child: Box::new(clone_expr(&member.child)),
            },
        ),
    }
}

/// A copy of a block, statement by statement.
pub fn clone_stmts(stmts: &Vec<Stmt>) -> (copy: Vec<Stmt>)
    ensures
        stmt_views(copy) == stmt_views(*stmts),
    decreases stmts, 1int,
{
    let mut copy: Vec<Stmt> = Vec::new();
    let mut index: usize = 0;
    while index < stmts.len()
        invariant
            index <= stmts@.len(),
            copy@.len() == index,
            forall|i: int| 0 <= i < index ==> copy@[i]@ == stmts@[i]@,
        decreases stmts@.len() - index,
    {
        copy.push(clone_stmt(&stmts[index]));
        index += 1;
    }
    assert(stmt_views(copy) =~= stmt_views(*stmts));
    copy
}

/// A copy of names.
pub fn clone_names(names: &Vec<String>) -> (copy: Vec<String>)
    ensures
        copy@ == names@,
{
    let mut copy: Vec<String> = Vec::new();
    let mut index: usize = 0;
    while index < names.len()
        invariant
            index <= names@.len(),
            copy@ == names@.subrange(0, index as int),
        decreases names@.len() - index,
    {
        copy.push(names[index].clone());
        index += 1;
        assert(copy@ =~= names@.subrange(0, index as int));
    }
    assert(copy@ =~= names@);
    copy
}

/// A copy of `stmt`, all the way down.
pub fn clone_stmt(stmt: &Stmt) -> (copy: Stmt)
    ensures
        copy@ == stmt@,
    decreases stmt, 0int,
{
    match stmt {
        Stmt::VarDecl(decl) => Stmt::VarDecl(
            VarDecl { ident: decl.ident.clone(), initializer: clone_expr(&decl.initializer) },
        ),
        Stmt::VarAssign(assign) => Stmt::VarAssign(
            VarAssign {
                to: clone_expr(&assign.to),
                value: clone_expr(&assign.value),
                op: assign.op,
            },
        ),
        Stmt::FnDecl(decl) => Stmt::FnDecl(
            FnDecl {
                ident: decl.ident.clone(),
                prop_idents: clone_names(&decl.prop_idents),
                body: clone_stmts(&decl.body),
            },
        ),
        Stmt::WhileLoop(w) => Stmt::WhileLoop(
            WhileLoop { condition: clone_expr(&w.condition), body: clone_stmts(&w.body) },
        ),
        Stmt::BlockExit(BlockExit::FnReturn(Some(e))) => Stmt::BlockExit(
            BlockExit::FnReturn(Some(clone_expr(e))),
        ),
        Stmt::BlockExit(BlockExit::FnReturn(None)) => Stmt::BlockExit(BlockExit::FnReturn(None)),
        Stmt::BlockExit(BlockExit::Break) => Stmt::BlockExit(BlockExit::Break),
        Stmt::BlockExit(BlockExit::Continue) => Stmt::BlockExit(BlockExit::Continue),
        Stmt::IfElse(if_else) => Stmt::IfElse(
            IfElse {
                condition: clone_expr(&if_else.condition),
                true_branch: clone_stmts(&if_else.true_branch),
                else_branch: clone_stmts(&if_else.else_branch),
            },
        ),
        Stmt::Expr(e) => Stmt::Expr(clone_expr(e)),
    }
}

impl Clone for Expr {
    fn clone(&self) -> (copy: Self)
        ensures
            copy@ == self@,
    {
        clone_expr(self)
    }
}

impl Clone for Stmt {
    fn clone(&self) -> (copy: Self)
        ensures
            copy@ == self@,
    {
        clone_stmt(self)
    }
}

impl Expr {
    pub open spec fn is_ident(&self) -> bool {
        self is Ident
    }

    /// The name, when the expression is a bare identifier.
    pub fn ident(self) -> (name: Option<String>)
        ensures
            name == (match self {
                Expr::Ident(s) => Some(s),
                _ => None,
            }),
    {
        match self {
            Expr::Ident(s) => Some(s),
            _ => None,
        }
    }
}

} // verus!
