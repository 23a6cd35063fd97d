//! The parsers of statements.

use vstd::prelude::*;
use vstd::slice::slice_subrange;
use crate::ast::{
    stmt_views,
    BlockExit,
    Expr,
    ExprView,
    FnDecl,
    IfElse,
    Stmt,
    StmtView,
    VarAssign,
    VarDecl,
    WhileLoop,
};
use crate::lex::{ShallowTokenKind, Token, TokenKind};
use crate::parse::common_parsers::{
    agrees,
    parse_prop_ident_list,
    parsed_prop_ident_list,
    settles,
    FoundPropIdentList,
};
use crate::parse::error::{Error, ErrorKind};
use crate::parse::expr_parsers::{parse_expr, parsed_expr};
use crate::parse::tokens_ext::{
    expected_at,
    first_assign_op,
    first_of_kind,
    get_token_kind,
    has_kind_at,
    last_index_of,
    last_token,
    locate_first,
    locate_first_assign_op,
    locate_last_matched_right,
    matched_right,
    LocatedAssignOp,
};

verus! {

/// A statement found at the start of some tokens.
#[derive(Debug)]
pub struct FoundStmt {
    pub stmt: Stmt,
    /// The index of the token after the statement.
    pub next_index: usize,
}

/// A found statement as a mathematical value.
pub ghost struct FoundStmtView {
    pub stmt: StmtView,
    pub next_index: int,
}

impl View for FoundStmt {
    type V = FoundStmtView;

    open spec fn view(&self) -> FoundStmtView {
        FoundStmtView { stmt: self.stmt@, next_index: self.next_index as int }
    }
}

/// A block in braces found at the start of some tokens.
#[derive(Debug)]
pub struct FoundBody {
    pub body: Vec<Stmt>,
    /// The index of the token after the closing brace.
    pub next_index: usize,
}

/// A found block as a mathematical value.
pub ghost struct FoundBodyView {
    pub body: Seq<StmtView>,
    pub next_index: int,
}

impl View for FoundBody {
    type V = FoundBodyView;

    open spec fn view(&self) -> FoundBodyView {
        FoundBodyView { body: stmt_views(self.body), next_index: self.next_index as int }
    }
}

/// The error for a token of `kind` that is nowhere in `tokens`: it points at the last token.
pub open spec fn none_of_kind(tokens: Seq<Token>, kind: ShallowTokenKind) -> Error {
    Error {
        index: last_index_of(tokens),
        kind: ErrorKind::ExpectedToken { expected: kind, received: last_token(tokens) },
        is_recoverable: true,
    }
}

/// The statements that `tokens` are from `from` on, all of them: one statement after the
/// other until no token is left. A failure is reported at its place in `tokens`.
pub open spec fn parsed_stmts_from(tokens: Seq<Token>, from: int) -> Result<Seq<StmtView>, Error>
    decreases tokens.len(), 3int, tokens.len() - from,
    when 0 <= from
{
    if from >= tokens.len() {
        Ok(Seq::empty())
    } else {
        match parsed_stmt(tokens.subrange(from, tokens.len() as int)) {
            Err(e) => Err(e.moved(from as usize)),
            Ok(found) => if 0 < found.next_index <= tokens.len() - from {
                match parsed_stmts_from(tokens, from + found.next_index) {
                    Ok(rest) => Ok(seq![found.stmt] + rest),
                    Err(e) => Err(e),
                }
            } else {
                Err(Error { index: from as usize, kind: ErrorKind::NoTokensProvided, is_recoverable: true })
            },
        }
    }
}

/// The statements that `tokens` are, all of them.
pub open spec fn parsed_stmt_list(tokens: Seq<Token>) -> Result<Seq<StmtView>, Error> {
    parsed_stmts_from(tokens, 0)
}

/// The statement that `tokens` begin with: the first of a declaration, an assignment, a
/// function, a loop, a conditional, a return, a break or continue, and an expression that
/// they can be read as. A failure that cannot be recovered from ends the search; where all
/// fail, the failure of the last is reported.
pub open spec fn parsed_stmt(tokens: Seq<Token>) -> Result<FoundStmtView, Error>
    decreases tokens.len(), 2int,
{
    let var_decl = parsed_var_decl(tokens);
    if settles(var_decl) {
        var_decl
    } else {
        let var_assign = parsed_var_assign(tokens);
        if settles(var_assign) {
            var_assign
        } else {
            let fn_decl = parsed_fn_decl(tokens);
            if settles(fn_decl) {
                fn_decl
            } else {
                let while_loop = parsed_while_loop(tokens);
                if settles(while_loop) {
                    while_loop
                } else {
                    let if_else = parsed_if_else(tokens);
                    if settles(if_else) {
                        if_else
                    } else {
                        let ret = parsed_return(tokens);
                        if settles(ret) {
                            ret
                        } else {
                            let exit = parsed_break_continue(tokens);
                            if settles(exit) {
                                exit
                            } else {
                                parsed_expr_stmt(tokens)
                            }
                        }
                    }
                }
            }
        }
    }
}

/// `let IDENT = EXPR ;`. The `let` commits.
pub open spec fn parsed_var_decl(tokens: Seq<Token>) -> Result<FoundStmtView, Error> {
    if !has_kind_at(tokens, 0, ShallowTokenKind::Let) {
        Err(expected_at(tokens, 0, ShallowTokenKind::Let))
    } else if !has_kind_at(tokens, 1, ShallowTokenKind::Ident) {
        Err(expected_at(tokens, 1, ShallowTokenKind::Ident).fatal())
    } else if !has_kind_at(tokens, 2, ShallowTokenKind::Equals) {
        Err(expected_at(tokens, 2, ShallowTokenKind::Equals).fatal())
    } else {
        let semi = first_of_kind(tokens, 3, ShallowTokenKind::Semicolon);
        if !(3 <= semi < tokens.len()) {
            Err(none_of_kind(tokens, ShallowTokenKind::Semicolon).fatal())
        } else {
            match parsed_expr(tokens.subrange(3, semi)) {
                Err(e) => Err(e.moved(3).fatal()),
                Ok(initializer) => Ok(
                    FoundStmtView {
                        stmt: StmtView::VarDecl { ident: tokens[1].kind.text(), initializer },
                        next_index: semi + 1,
                    },
                ),
            }
        }
    }
}

/// `LVALUE ASSIGN_OP EXPR ;`, split at the first assignment operator behind the first token.
/// Nothing commits: an expression statement may still apply.
pub open spec fn parsed_var_assign(tokens: Seq<Token>) -> Result<FoundStmtView, Error> {
    let location = first_assign_op(tokens, 1);
    let semi = first_of_kind(tokens, 0, ShallowTokenKind::Semicolon);
    if !(1 <= location < tokens.len()) {
        Err(
            Error {
                index: last_index_of(tokens),
                kind: ErrorKind::ExpectedAssignmentOperator { received: last_token(tokens) },
                is_recoverable: true,
            },
        )
    } else if !(0 <= semi < tokens.len()) {
        Err(none_of_kind(tokens, ShallowTokenKind::Semicolon))
    } else if semi < location {
        Err(
            Error {
                index: semi as usize,
                kind: ErrorKind::ExpectedAssignmentOperator { received: Some(tokens[semi]) },
                is_recoverable: true,
            },
        )
    } else {
        match parsed_expr(tokens.subrange(0, location)) {
            Err(e) => Err(e),
            Ok(to) => match parsed_expr(tokens.subrange(location + 1, semi)) {
                Err(e) => Err(e.moved((location + 1) as usize)),
                Ok(value) => Ok(
                    FoundStmtView {
                        stmt: StmtView::VarAssign {
                            to,
                            value,
                            op: tokens[location].kind.assign_op()->0,
                        },
                        next_index: semi + 1,
                    },
                ),
            },
        }
    }
}

/// `fn IDENT ( IDENT_LIST ) { STMT_LIST }`. The `fn` commits.
pub open spec fn parsed_fn_decl(tokens: Seq<Token>) -> Result<FoundStmtView, Error>
    decreases tokens.len(), 1int,
{
    if !has_kind_at(tokens, 0, ShallowTokenKind::Fn) {
        Err(expected_at(tokens, 0, ShallowTokenKind::Fn))
    } else if !has_kind_at(tokens, 1, ShallowTokenKind::Ident) {
        Err(expected_at(tokens, 1, ShallowTokenKind::Ident).fatal())
    } else {
        match parsed_prop_ident_list(tokens.subrange(2, tokens.len() as int)) {
            Err(e) => Err(e.moved(2).fatal()),
            Ok(props) => if !(0 <= props.next_index <= tokens.len() - 2) {
                Err(expected_at(tokens, 0, ShallowTokenKind::Fn))
            } else {
                match parsed_body(tokens.subrange(props.next_index + 2, tokens.len() as int)) {
                    Err(e) => Err(e.moved((props.next_index + 2) as usize).fatal()),
                    Ok(body) => Ok(
                        FoundStmtView {
                            stmt: StmtView::FnDecl {
                                ident: tokens[1].kind.text(),
                                prop_idents: props.prop_idents,
                                body: body.body,
                            },
                            next_index: props.next_index + 2 + body.next_index,
                        },
                    ),
                }
            },
        }
    }
}

/// What stands in front of a block, in a loop and in a conditional: a keyword and a
/// parenthesised condition. Gives the condition and the index of the token after the `)`.
pub open spec fn parsed_condition(tokens: Seq<Token>, keyword: ShallowTokenKind) -> Result<
    (ExprView, int),
    Error,
> {
    if !has_kind_at(tokens, 0, keyword) {
        Err(expected_at(tokens, 0, keyword))
    } else {
        match matched_right(
            tokens.subrange(1, tokens.len() as int),
            ShallowTokenKind::LeftParen,
            ShallowTokenKind::RightParen,
        ) {
            Err(e) => Err(e.moved(1).fatal()),
            Ok(close) => if !(1 <= close < tokens.len() - 1) {
                Err(expected_at(tokens, 0, keyword))
            } else {
                match parsed_expr(tokens.subrange(2, close + 1)) {
                    Err(e) => Err(e.moved(2).fatal()),
                    Ok(condition) => Ok((condition, close + 2)),
                }
            },
        }
    }
}

/// `while ( EXPR ) { STMT_LIST }`. The `while` commits.
pub open spec fn parsed_while_loop(tokens: Seq<Token>) -> Result<FoundStmtView, Error>
    decreases tokens.len(), 1int,
{
    match parsed_condition(tokens, ShallowTokenKind::While) {
        Err(e) => Err(e),
        Ok((condition, after)) => if !(1 <= after <= tokens.len()) {
            Err(expected_at(tokens, 0, ShallowTokenKind::While))
        } else {
            match parsed_body(tokens.subrange(after, tokens.len() as int)) {
                Err(e) => Err(e.moved(after as usize).fatal()),
                Ok(body) => Ok(
                    FoundStmtView {
                        stmt: StmtView::WhileLoop { condition, body: body.body },
                        next_index: after + body.next_index,
                    },
                ),
            }
        },
    }
}

/// `if ( EXPR ) { STMT_LIST }`, then optionally `else` and either another conditional, which
/// becomes the only statement of the else branch, or a block. The `if` commits.
pub open spec fn parsed_if_else(tokens: Seq<Token>) -> Result<FoundStmtView, Error>
    decreases tokens.len(), 1int,
{
    match parsed_condition(tokens, ShallowTokenKind::If) {
        Err(e) => Err(e),
        Ok((condition, after)) => if !(1 <= after <= tokens.len()) {
            Err(expected_at(tokens, 0, ShallowTokenKind::If))
        } else {
            match parsed_body(tokens.subrange(after, tokens.len() as int)) {
                Err(e) => Err(e.moved(after as usize).fatal()),
                Ok(body) => {
                    let after_body = after + body.next_index;
                    if !has_kind_at(tokens, after_body, ShallowTokenKind::Else) {
                        Ok(
                            FoundStmtView {
                                stmt: StmtView::IfElse {
                                    condition,
                                    true_branch: body.body,
                                    else_branch: Seq::empty(),
                                },
                                next_index: after_body,
                            },
                        )
                    } else {
                        let rest = tokens.subrange(after_body + 1, tokens.len() as int);
                        match parsed_if_else(rest) {
                            Ok(nested) => Ok(
                                FoundStmtView {
                                    stmt: StmtView::IfElse {
                                        condition,
                                        true_branch: body.body,
                                        else_branch: seq![nested.stmt],
                                    },
                                    next_index: after_body + 1 + nested.next_index,
                                },
                            ),
                            Err(e) => if !e.is_recoverable {
                                Err(e.moved((after_body + 1) as usize))
                            } else {
                                match parsed_body(rest) {
                                    Err(e) => Err(e.moved((after_body + 1) as usize).fatal()),
                                    Ok(else_body) => Ok(
                                        FoundStmtView {
                                            stmt: StmtView::IfElse {
                                                condition,
                                                true_branch: body.body,
                                                else_branch: else_body.body,
                                            },
                                            next_index: after_body + 1 + else_body.next_index,
                                        },
                                    ),
                                }
                            },
                        }
                    }
                },
            }
        },
    }
}

/// `return ;` or `return EXPR ;`. The `return` commits.
pub open spec fn parsed_return(tokens: Seq<Token>) -> Result<FoundStmtView, Error> {
    if !has_kind_at(tokens, 0, ShallowTokenKind::Return) {
        Err(expected_at(tokens, 0, ShallowTokenKind::Return))
    } else {
        let semi = first_of_kind(tokens, 0, ShallowTokenKind::Semicolon);
        if !(1 <= semi < tokens.len()) {
            Err(none_of_kind(tokens, ShallowTokenKind::Semicolon).fatal())
        } else if semi == 1 {
            Ok(FoundStmtView { stmt: StmtView::Return(None), next_index: 2 })
        } else {
            match parsed_expr(tokens.subrange(1, semi)) {
                Err(e) => Err(e.moved(1).fatal()),
                Ok(value) => Ok(
                    FoundStmtView { stmt: StmtView::Return(Some(value)), next_index: semi + 1 },
                ),
            }
        }
    }
}

/// `break ;` or `continue ;`.
pub open spec fn parsed_break_continue(tokens: Seq<Token>) -> Result<FoundStmtView, Error> {
    if !has_kind_at(tokens, 1, ShallowTokenKind::Semicolon) {
        Err(expected_at(tokens, 1, ShallowTokenKind::Semicolon))
    } else if has_kind_at(tokens, 0, ShallowTokenKind::Break) {
        Ok(FoundStmtView { stmt: StmtView::Break, next_index: 2 })
    } else if has_kind_at(tokens, 0, ShallowTokenKind::Continue) {
        Ok(FoundStmtView { stmt: StmtView::Continue, next_index: 2 })
    } else {
        Err(expected_at(tokens, 0, ShallowTokenKind::Continue))
    }
}

/// `EXPR ;`. The semicolon commits: this is the last statement that is tried.
pub open spec fn parsed_expr_stmt(tokens: Seq<Token>) -> Result<FoundStmtView, Error> {
    let semi = first_of_kind(tokens, 0, ShallowTokenKind::Semicolon);
    if !(0 <= semi < tokens.len()) {
        Err(none_of_kind(tokens, ShallowTokenKind::Semicolon))
    } else {
        match parsed_expr(tokens.subrange(0, semi)) {
            Err(e) => Err(e.fatal()),
            Ok(e) => Ok(FoundStmtView { stmt: StmtView::Expr(e), next_index: semi + 1 }),
        }
    }
}

/// `{ STMT_LIST }`. The brace that closes the first one commits.
pub open spec fn parsed_body(tokens: Seq<Token>) -> Result<FoundBodyView, Error>
    decreases tokens.len(), 1int,
{
    match matched_right(tokens, ShallowTokenKind::LeftBrace, ShallowTokenKind::RightBrace) {
        Err(e) => Err(e),
        Ok(closing) => if !(1 <= closing < tokens.len()) {
            Err(expected_at(tokens, 0, ShallowTokenKind::LeftBrace))
        } else {
            match parsed_stmts_from(tokens.subrange(1, closing as int), 0) {
                Err(e) => Err(e.moved(1).fatal()),
                Ok(body) => Ok(FoundBodyView { body, next_index: closing + 1 }),
            }
        },
    }
}

/// Whether `stmts` are statements that stand one behind the other in `tokens`, the first at
/// `from` and the last up to the last token: each is what `parsed_stmt` reads at its place,
/// and starts where the one before it ends.
pub open spec fn tiles(tokens: Seq<Token>, from: int, stmts: Seq<StmtView>) -> bool
    decreases stmts.len(),
{
    if stmts.len() == 0 {
        from >= tokens.len()
    } else {
        &&& 0 <= from < tokens.len()
        &&& parsed_stmt(tokens.subrange(from, tokens.len() as int)) matches Ok(found)
        &&& found.stmt == stmts[0]
        &&& 0 < found.next_index <= tokens.len() - from
        &&& tiles(tokens, from + found.next_index, stmts.drop_first())
    }
}

/// A program that was parsed consumes every token: its statements stand one behind the other
/// from the first token to the last. There is no program for a part of the tokens.
pub proof fn lemma_program_consumes_every_token(tokens: Seq<Token>, from: int)
    requires
        0 <= from,
        parsed_stmts_from(tokens, from) is Ok,
    ensures
        tiles(tokens, from, parsed_stmts_from(tokens, from)->Ok_0),
    decreases tokens.len() - from,
{
    if from < tokens.len() {
        let found = parsed_stmt(tokens.subrange(from, tokens.len() as int))->Ok_0;
        let rest = parsed_stmts_from(tokens, from + found.next_index)->Ok_0;
        lemma_program_consumes_every_token(tokens, from + found.next_index);
        assert(parsed_stmts_from(tokens, from)->Ok_0.drop_first() =~= rest);
    }
}

/// Parses statements until no token is left.
pub fn parse_stmt_list(tokens: &[Token]) -> (parsed: Result<Vec<Stmt>, Error>)
    ensures
        match parsed {
            Ok(stmts) => parsed_stmt_list(tokens@) == Ok::<Seq<StmtView>, Error>(stmt_views(stmts)),
            Err(e) => parsed_stmt_list(tokens@) == Err::<Seq<StmtView>, Error>(e),
        },
    decreases tokens@.len(), 3int,
{
    let mut stmts: Vec<Stmt> = Vec::new();
    let mut current_index: usize = 0;
    assert(stmt_views(stmts) =~= Seq::<StmtView>::empty());
    while current_index < tokens.len()
        invariant
            match parsed_stmts_from(tokens@, current_index as int) {
                Ok(rest) => parsed_stmt_list(tokens@) == Ok::<Seq<StmtView>, Error>(
                    stmt_views(stmts) + rest,
                ),
                Err(e) => parsed_stmt_list(tokens@) == Err::<Seq<StmtView>, Error>(e),
            },
        decreases tokens@.len() - current_index,
    {
        let rest = slice_subrange(tokens, current_index, tokens.len());
        match parse_stmt(rest) {
            Err(e) => {
                return Err(e.offset(current_index));
            },
            Ok(FoundStmt { stmt, next_index }) => {
                let ghost before = stmt_views(stmts);
                let ghost view = stmt@;
                stmts.push(stmt);
                proof {
                    assert(stmt_views(stmts) =~= before.push(view));
                    let after = parsed_stmts_from(tokens@, current_index + next_index);
                    if after is Ok {
                        assert(before + (seq![view] + after->Ok_0) =~= before.push(view)
                            + after->Ok_0);
                    }
                }
                current_index += next_index;
            },
        }
    }
    assert(stmt_views(stmts) + Seq::<StmtView>::empty() =~= stmt_views(stmts));
    Ok(stmts)
}

/// Runs all statement parsers over `tokens`, returning the first success, the first failure
/// that cannot be recovered from, or else the last failure.
pub fn parse_stmt(tokens: &[Token]) -> (parsed: Result<FoundStmt, Error>)
    ensures
        agrees(parsed, parsed_stmt(tokens@)),
        parsed matches Ok(found) ==> 1 <= found.next_index <= tokens@.len(),
    decreases tokens@.len(), 2int,
{
    match parse_var_decl(tokens) {
        Ok(found) => {
            return Ok(found);
        },
        Err(err) => {
            if !err.is_recoverable {
                return Err(err);
            }
        },
    }
    match parse_var_assign(tokens) {
        Ok(found) => {
            return Ok(found);
        },
        Err(err) => {
            if !err.is_recoverable {
                return Err(err);
            }
        },
    }
    match parse_fn_decl(tokens) {
        Ok(found) => {
            return Ok(found);
        },
        Err(err) => {
            if !err.is_recoverable {
                return Err(err);
            }
        },
    }
    match parse_while_loop(tokens) {
        Ok(found) => {
            return Ok(found);
        },
        Err(err) => {
            if !err.is_recoverable {
                return Err(err);
            }
        },
    }
    match parse_if_else(tokens) {
        Ok(found) => {
            return Ok(found);
        },
        Err(err) => {
            if !err.is_recoverable {
                return Err(err);
            }
        },
    }
    match parse_return(tokens) {
        Ok(found) => {
            return Ok(found);
        },
        Err(err) => {
            if !err.is_recoverable {
                return Err(err);
            }
        },
    }
    match parse_break_continue(tokens) {
        Ok(found) => {
            return Ok(found);
        },
        Err(err) => {
            if !err.is_recoverable {
                return Err(err);
            }
        },
    }
    parse_expr_stmt(tokens)
}

/// The name that the identifier at `index` carries.
fn ident_at(tokens: &[Token], index: usize) -> (found: Result<String, Error>)
    ensures
        match found {
            Ok(name) => has_kind_at(tokens@, index as int, ShallowTokenKind::Ident) && name@
                == tokens@[index as int].kind.text(),
            Err(e) => !has_kind_at(tokens@, index as int, ShallowTokenKind::Ident) && e
                == expected_at(tokens@, index, ShallowTokenKind::Ident),
        },
{
    match get_token_kind(tokens, index, ShallowTokenKind::Ident) {
        Ok(TokenKind::Ident(name)) => Ok(name.clone()),
        Ok(_) => Err(Error::expected_token(index, ShallowTokenKind::Ident, None)),
        Err(e) => Err(e),
    }
}

/// Parses the declaration of a variable.
pub fn parse_var_decl(tokens: &[Token]) -> (parsed: Result<FoundStmt, Error>)
    ensures
        agrees(parsed, parsed_var_decl(tokens@)),
        parsed matches Ok(found) ==> 1 <= found.next_index <= tokens@.len(),
{
    match get_token_kind(tokens, 0, ShallowTokenKind::Let) {
        Ok(_) => {},
        Err(e) => {
            return Err(e);
        },
    }
    let ident = match ident_at(tokens, 1) {
        Ok(name) => name,
        Err(e) => {
            return Err(e.unrecoverable());
        },
    };
    match get_token_kind(tokens, 2, ShallowTokenKind::Equals) {
        Ok(_) => {},
        Err(e) => {
            return Err(e.unrecoverable());
        },
    }
    let semi_location = match locate_first(tokens, 3, ShallowTokenKind::Semicolon) {
        Ok(index) => index,
        Err(e) => {
            return Err(e.unrecoverable());
        },
    };
    match parse_expr(slice_subrange(tokens, 3, semi_location)) {
        Err(e) => Err(e.offset(3).unrecoverable()),
        Ok(initializer) => Ok(
            FoundStmt {
                stmt: Stmt::VarDecl(VarDecl { ident, initializer }),
                next_index: semi_location + 1,
            },
        ),
    }
}

/// Parses an assignment.
pub fn parse_var_assign(tokens: &[Token]) -> (parsed: Result<FoundStmt, Error>)
    ensures
        agrees(parsed, parsed_var_assign(tokens@)),
        parsed matches Ok(found) ==> 1 <= found.next_index <= tokens@.len(),
{
    let LocatedAssignOp { op, location } = match locate_first_assign_op(tokens, 1) {
        Ok(located) => located,
        Err(e) => {
            return Err(e);
        },
    };
    let semi_location = match locate_first(tokens, 0, ShallowTokenKind::Semicolon) {
        Ok(index) => index,
        Err(e) => {
            return Err(e);
        },
    };
    if semi_location < location {
        return Err(
            Error::expected_assignment_operator(semi_location, Some(tokens[semi_location].clone())),
        );
    }
    let to = match parse_expr(slice_subrange(tokens, 0, location)) {
        Ok(to) => to,
        Err(e) => {
            return Err(e);
        },
    };
    match parse_expr(slice_subrange(tokens, location + 1, semi_location)) {
        Err(e) => Err(e.offset(location + 1)),
        Ok(value) => Ok(
            FoundStmt {
                stmt: Stmt::VarAssign(VarAssign { to, value, op }),
                next_index: semi_location + 1,
            },
        ),
    }
}

/// Parses the declaration of a function.
pub fn parse_fn_decl(tokens: &[Token]) -> (parsed: Result<FoundStmt, Error>)
    ensures
        agrees(parsed, parsed_fn_decl(tokens@)),
        parsed matches Ok(found) ==> 1 <= found.next_index <= tokens@.len(),
    decreases tokens@.len(), 1int,
{
    match get_token_kind(tokens, 0, ShallowTokenKind::Fn) {
        Ok(_) => {},
        Err(e) => {
            return Err(e);
        },
    }
    let ident = match ident_at(tokens, 1) {
        Ok(name) => name,
        Err(e) => {
            return Err(e.unrecoverable());
        },
    };
    let FoundPropIdentList { prop_idents, next_index } = match parse_prop_ident_list(
        slice_subrange(tokens, 2, tokens.len()),
    ) {
        Ok(list) => list,
        Err(e) => {
            return Err(e.offset(2).unrecoverable());
        },
    };
    match parse_body(slice_subrange(tokens, next_index + 2, tokens.len())) {
        Err(e) => Err(e.offset(next_index + 2).unrecoverable()),
        Ok(FoundBody { body, next_index: after_body }) => Ok(
            FoundStmt {
                stmt: Stmt::FnDecl(FnDecl { ident, prop_idents, body }),
                next_index: next_index + 2 + after_body,
            },
        ),
    }
}

/// Parses a keyword and the parenthesised condition behind it. Returns the condition and the
/// index of the token after the closing parenthesis.
pub fn parse_condition(tokens: &[Token], keyword: ShallowTokenKind) -> (parsed: Result<
    (Expr, usize),
    Error,
>)
    ensures
        match parsed {
            Ok((condition, after)) => parsed_condition(tokens@, keyword) == Ok::<
                (ExprView, int),
                Error,
            >((condition@, after as int)) && 3 <= after <= tokens@.len(),
            Err(e) => parsed_condition(tokens@, keyword) == Err::<(ExprView, int), Error>(e),
        },
{
    match get_token_kind(tokens, 0, keyword) {
        Ok(_) => {},
        Err(e) => {
            return Err(e);
        },
    }
    let closing_paren_index = match locate_last_matched_right(
        slice_subrange(tokens, 1, tokens.len()),
        ShallowTokenKind::LeftParen,
        ShallowTokenKind::RightParen,
    ) {
        Ok(index) => index + 1,
        Err(e) => {
            return Err(e.offset(1).unrecoverable());
        },
    };
    match parse_expr(slice_subrange(tokens, 2, closing_paren_index)) {
        Err(e) => Err(e.offset(2).unrecoverable()),
        Ok(condition) => Ok((condition, closing_paren_index + 1)),
    }
}

/// Parses a loop.
pub fn parse_while_loop(tokens: &[Token]) -> (parsed: Result<FoundStmt, Error>)
    ensures
        agrees(parsed, parsed_while_loop(tokens@)),
        parsed matches Ok(found) ==> 1 <= found.next_index <= tokens@.len(),
    decreases tokens@.len(), 1int,
{
    let (condition, after) = match parse_condition(tokens, ShallowTokenKind::While) {
        Ok(found) => found,
        Err(e) => {
            return Err(e);
        },
    };
    match parse_body(slice_subrange(tokens, after, tokens.len())) {
        Err(e) => Err(e.offset(after).unrecoverable()),
        Ok(FoundBody { body, next_index: after_body }) => Ok(
            FoundStmt {
                stmt: Stmt::WhileLoop(WhileLoop { condition, body }),
                next_index: after + after_body,
            },
        ),
    }
}

/// Parses a return statement.
pub fn parse_return(tokens: &[Token]) -> (parsed: Result<FoundStmt, Error>)
    ensures
        agrees(parsed, parsed_return(tokens@)),
        parsed matches Ok(found) ==> 1 <= found.next_index <= tokens@.len(),
{
    match get_token_kind(tokens, 0, ShallowTokenKind::Return) {
        Ok(_) => {},
        Err(e) => {
            return Err(e);
        },
    }
    let final_semi = match locate_first(tokens, 0, ShallowTokenKind::Semicolon) {
        Ok(index) => index,
        Err(e) => {
            return Err(e.unrecoverable());
        },
    };
    if final_semi == 1 {
        return Ok(FoundStmt { stmt: Stmt::BlockExit(BlockExit::FnReturn(None)), next_index: 2 });
    }
    match parse_expr(slice_subrange(tokens, 1, final_semi)) {
        Err(e) => Err(e.offset(1).unrecoverable()),
        Ok(value) => Ok(
            FoundStmt {
                stmt: Stmt::BlockExit(BlockExit::FnReturn(Some(value))),
                next_index: final_semi + 1,
            },
        ),
    }
}

/// Parses either a `break` or a `continue`.
pub fn parse_break_continue(tokens: &[Token]) -> (parsed: Result<FoundStmt, Error>)
    ensures
        agrees(parsed, parsed_break_continue(tokens@)),
        parsed matches Ok(found) ==> 1 <= found.next_index <= tokens@.len(),
{
    match get_token_kind(tokens, 1, ShallowTokenKind::Semicolon) {
        Ok(_) => {},
        Err(e) => {
            return Err(e);
        },
    }
    if get_token_kind(tokens, 0, ShallowTokenKind::Break).is_ok() {
        return Ok(FoundStmt { stmt: Stmt::BlockExit(BlockExit::Break), next_index: 2 });
    }
    match get_token_kind(tokens, 0, ShallowTokenKind::Continue) {
        Ok(_) => Ok(FoundStmt { stmt: Stmt::BlockExit(BlockExit::Continue), next_index: 2 }),
        Err(e) => Err(e),
    }
}

/// Parses a conditional.
pub fn parse_if_else(tokens: &[Token]) -> (parsed: Result<FoundStmt, Error>)
    ensures
        agrees(parsed, parsed_if_else(tokens@)),
        parsed matches Ok(found) ==> 1 <= found.next_index <= tokens@.len(),
    decreases tokens@.len(), 1int,
{
    let (condition, after) = match parse_condition(tokens, ShallowTokenKind::If) {
        Ok(found) => found,
        Err(e) => {
            return Err(e);
        },
    };
    let FoundBody { body: true_branch, next_index } = match parse_body(
        slice_subrange(tokens, after, tokens.len()),
    ) {
        Ok(found) => found,
        Err(e) => {
            return Err(e.offset(after).unrecoverable());
        },
    };
    let after_body = after + next_index;
    if get_token_kind(tokens, after_body, ShallowTokenKind::Else).is_err() {
        let else_branch: Vec<Stmt> = Vec::new();
        assert(stmt_views(else_branch) =~= Seq::<StmtView>::empty());
        return Ok(
            FoundStmt {
                stmt: Stmt::IfElse(IfElse { condition, true_branch, else_branch }),
                next_index: after_body,
            },
        );
    }
    let rest = slice_subrange(tokens, after_body + 1, tokens.len());
    match parse_if_else(rest) {
        Ok(FoundStmt { stmt, next_index: after_second_body }) => {
            let ghost nested = stmt@;
            let mut else_branch: Vec<Stmt> = Vec::new();
            else_branch.push(stmt);
            assert(stmt_views(else_branch) =~= seq![nested]);
            Ok(
                FoundStmt {
                    stmt: Stmt::IfElse(IfElse { condition, true_branch, else_branch }),
                    next_index: after_body + 1 + after_second_body,
                },
            )
        },
        Err(e) => {
            if !e.is_recoverable {
                return Err(e.offset(after_body + 1));
            }
            match parse_body(rest) {
                Err(e) => Err(e.offset(after_body + 1).unrecoverable()),
                Ok(FoundBody { body: else_branch, next_index: after_second_body }) => Ok(
                    FoundStmt {
                        stmt: Stmt::IfElse(IfElse { condition, true_branch, else_branch }),
                        next_index: after_body + 1 + after_second_body,
                    },
                ),
            }
        },
    }
}

/// Parses an expression statement.
pub fn parse_expr_stmt(tokens: &[Token]) -> (parsed: Result<FoundStmt, Error>)
    ensures
        agrees(parsed, parsed_expr_stmt(tokens@)),
        parsed matches Ok(found) ==> 1 <= found.next_index <= tokens@.len(),
{
    let final_semi = match locate_first(tokens, 0, ShallowTokenKind::Semicolon) {
        Ok(index) => index,
        Err(e) => {
            return Err(e);
        },
    };
    match parse_expr(slice_subrange(tokens, 0, final_semi)) {
        Err(e) => Err(e.unrecoverable()),
        Ok(e) => Ok(FoundStmt { stmt: Stmt::Expr(e), next_index: final_semi + 1 }),
    }
}

/// Parses a block in braces.
pub fn parse_body(tokens: &[Token]) -> (parsed: Result<FoundBody, Error>)
    ensures
        agrees(parsed, parsed_body(tokens@)),
        parsed matches Ok(found) ==> 2 <= found.next_index <= tokens@.len(),
    decreases tokens@.len(), 1int,
{
    let closing_brace_index = match locate_last_matched_right(
        tokens,
        ShallowTokenKind::LeftBrace,
        ShallowTokenKind::RightBrace,
    ) {
        Ok(index) => index,
        Err(e) => {
            return Err(e);
        },
    };
    match parse_stmt_list(slice_subrange(tokens, 1, closing_brace_index)) {
        Err(e) => Err(e.offset(1).unrecoverable()),
        Ok(body) => Ok(FoundBody { body, next_index: closing_brace_index + 1 }),
    }
}

} // verus!
