use treewalk::ast::{AssignOpKind, BinaryOpKind, BlockExit, Expr, Stmt};
use treewalk::lex::lexers::lex_to_end;
use treewalk::lex::{ShallowTokenKind, Token};
use treewalk::parse::common_parsers::{parse_expr_list, parse_prop_ident_list};
use treewalk::parse::expr_parsers::{
    parse_array_literal, parse_binary_op, parse_expr, parse_fn_call, parse_object_literal,
    parse_single_token,
};
use treewalk::parse::stmt_parsers::{
    parse_break_continue, parse_fn_decl, parse_if_else, parse_return, parse_stmt,
    parse_var_assign, parse_while_loop,
};
use treewalk::parse::tokens_ext::{
    get_binary_op, get_token_kind, locate_first, locate_first_assign_op, locate_first_binary_op,
    locate_first_matched_left, locate_last_matched_right,
};
use treewalk::parse::ErrorKind;
use treewalk::{parse_string, parse_tokens, Error};

fn tokenize(source: &str) -> Vec<Token> {
    let chars: Vec<char> = source.chars().collect();
    lex_to_end(&chars).expect("Failed to tokenize.")
}

fn ident_of(expr: &Expr) -> &str {
    match expr {
        Expr::Ident(name) => name,
        other => panic!("not an identifier: {:?}", other),
    }
}

fn numeral_of(expr: &Expr) -> &str {
    match expr {
        Expr::NumberLiteral(numeral) => numeral,
        other => panic!("not a number: {:?}", other),
    }
}

#[test]
fn parses_empty_expr_list() {
    let tokens = tokenize("()");

    let res = parse_expr_list(
        &tokens,
        ShallowTokenKind::Comma,
        ShallowTokenKind::LeftParen,
        ShallowTokenKind::RightParen,
    );

    res.unwrap();
}

#[test]
fn parses_prop_list() {
    let tokens = tokenize("(a, b, c)");

    let props = parse_prop_ident_list(&tokens).unwrap();

    assert_eq!(props.prop_idents, vec!["a", "b", "c"])
}

#[test]
fn parses_add() {
    let tokens = tokenize("1 + 23 / 2");

    let res = parse_binary_op(&tokens);

    res.unwrap();
}

#[test]
fn parses_fn_call() {
    let tokens = tokenize("test(a + 12, b)");

    let res = parse_fn_call(&tokens);

    res.unwrap();
}

#[test]
fn parses_array_literal() {
    let tokens = tokenize("[a, b, \"test\", 23, [1, 2]]");

    let res = parse_array_literal(&tokens);

    res.unwrap();
}

#[test]
fn parses_object_literal() {
    let tokens = tokenize("{ a: 1, b: 2, arr: [1, 2], str: \"test string\" }");

    let res = parse_object_literal(&tokens);

    res.unwrap();
}

#[test]
fn parses_fn_decl() {
    let tokens = tokenize("fn main(a, b) { let cat = 2 + 3 / 2; }");

    let res = parse_fn_decl(&tokens);

    res.unwrap();
}

#[test]
fn parses_while_loop() {
    let tokens = tokenize("while (true){ test(); }");

    let res = parse_while_loop(&tokens);

    res.unwrap();
}

#[test]
fn parses_if() {
    let tokens = tokenize("if (true){ test(); }");

    let res = parse_if_else(&tokens);

    res.unwrap();
}

#[test]
fn prop_list_reports_next_index() {
    let tokens = tokenize("(a, b, c) {");
    let props = parse_prop_ident_list(&tokens).unwrap();
    assert_eq!(props.next_index, 7);
}

#[test]
fn prop_list_rejects_a_literal() {
    let tokens = tokenize("(a, 1)");
    let err = parse_prop_ident_list(&tokens).unwrap_err();
    assert_eq!(err.index, 3);
    assert!(err.is_recoverable);
    match err.kind {
        ErrorKind::ExpectedToken { expected, received } => {
            assert_eq!(expected, ShallowTokenKind::Ident);
            assert_eq!(received.unwrap().span.start, 4);
        }
        other => panic!("unexpected kind {:?}", other),
    }
}

#[test]
fn binary_op_splits_at_the_first_operator() {
    let tokens = tokenize("1 - 2 - 3");
    match parse_expr(&tokens).unwrap() {
        Expr::BinaryOp(outer) => {
            assert_eq!(outer.kind, BinaryOpKind::Subtract);
            assert_eq!(numeral_of(&outer.a), "1");
            match *outer.b {
                Expr::BinaryOp(inner) => {
                    assert_eq!(inner.kind, BinaryOpKind::Subtract);
                    assert_eq!(numeral_of(&inner.a), "2");
                    assert_eq!(numeral_of(&inner.b), "3");
                }
                other => panic!("right side is {:?}", other),
            }
        }
        other => panic!("parsed as {:?}", other),
    }
}

#[test]
fn earlier_operator_binds_outer() {
    let tokens = tokenize("a + b * c ");
    match parse_expr(&tokens).unwrap() {
        Expr::BinaryOp(outer) => {
            assert_eq!(outer.kind, BinaryOpKind::Add);
            assert_eq!(ident_of(&outer.a), "a");
            match *outer.b {
                Expr::BinaryOp(inner) => {
                    assert_eq!(inner.kind, BinaryOpKind::Multiply);
                    assert_eq!(ident_of(&inner.a), "b");
                    assert_eq!(ident_of(&inner.b), "c");
                }
                other => panic!("right side is {:?}", other),
            }
        }
        other => panic!("parsed as {:?}", other),
    }
}

#[test]
fn binary_op_skips_an_operator_inside_a_call() {
    let tokens = tokenize("f(a + 1) ** 2");
    match parse_expr(&tokens).unwrap() {
        Expr::BinaryOp(outer) => {
            assert_eq!(outer.kind, BinaryOpKind::Pow);
            match *outer.a {
                Expr::FnCall(call) => {
                    assert_eq!(call.ident, "f");
                    assert_eq!(call.args.len(), 1);
                }
                other => panic!("left side is {:?}", other),
            }
        }
        other => panic!("parsed as {:?}", other),
    }
}

#[test]
fn fn_call_collects_arguments_in_order() {
    let tokens = tokenize("test(a + 12, b, [1, 2])");
    match parse_fn_call(&tokens).unwrap() {
        Expr::FnCall(call) => {
            assert_eq!(call.ident, "test");
            assert_eq!(call.args.len(), 3);
            assert!(matches!(call.args[0], Expr::BinaryOp(_)));
            assert_eq!(ident_of(&call.args[1]), "b");
            assert!(matches!(call.args[2], Expr::ArrayLiteral(_)));
        }
        other => panic!("parsed as {:?}", other),
    }
}

#[test]
fn fn_call_must_consume_everything() {
    let tokens = tokenize("f(a) b ");
    let err = parse_fn_call(&tokens).unwrap_err();
    assert!(matches!(err.kind, ErrorKind::FailedToConsume));
    assert_eq!(err.index, 3);
}

#[test]
fn object_literal_keeps_the_last_value_of_a_key() {
    let tokens = tokenize("{ a: 1, b: 2, a: 3 }");
    match parse_object_literal(&tokens).unwrap() {
        Expr::ObjectLiteral(fields) => {
            assert_eq!(fields.len(), 2);
            assert_eq!(fields[0].key, "a");
            assert_eq!(numeral_of(&fields[0].value), "3");
            assert_eq!(fields[1].key, "b");
            assert_eq!(numeral_of(&fields[1].value), "2");
        }
        other => panic!("parsed as {:?}", other),
    }
}

#[test]
fn object_literal_must_consume_everything() {
    let tokens = tokenize("{ } x ");
    let err = parse_object_literal(&tokens).unwrap_err();
    assert!(matches!(err.kind, ErrorKind::FailedToConsume));
    assert_eq!(err.index, 1);
}

#[test]
fn object_literal_without_a_value_is_no_valid_expr() {
    let tokens = tokenize("{ a: + }");
    let err = parse_object_literal(&tokens).unwrap_err();
    assert!(matches!(err.kind, ErrorKind::NoValidExpr));
    assert_eq!(err.index, 4);
}

#[test]
fn empty_list_item_is_no_valid_expr() {
    let tokens = tokenize("[, a]");
    let err = parse_array_literal(&tokens).unwrap_err();
    assert!(matches!(err.kind, ErrorKind::NoValidExpr));
    assert_eq!(err.index, 1);
}

#[test]
fn statements_are_tried_in_order() {
    let program = parse_string(
        "let x = 1; x += 2; fn f(a) { return a; } while (true) { break; } \
         if (x) { continue; } else if (y) { } else { return; } f(x);",
    )
    .unwrap();
    assert_eq!(program.len(), 6);
    assert!(matches!(program[0], Stmt::VarDecl(_)));
    match &program[1] {
        Stmt::VarAssign(assign) => assert_eq!(assign.op, AssignOpKind::Op(BinaryOpKind::Add)),
        other => panic!("parsed as {:?}", other),
    }
    match &program[2] {
        Stmt::FnDecl(decl) => {
            assert_eq!(decl.ident, "f");
            assert_eq!(decl.prop_idents, vec!["a"]);
            assert!(matches!(decl.body[0], Stmt::BlockExit(BlockExit::FnReturn(Some(_)))));
        }
        other => panic!("parsed as {:?}", other),
    }
    match &program[3] {
        Stmt::WhileLoop(w) => assert!(matches!(w.body[0], Stmt::BlockExit(BlockExit::Break))),
        other => panic!("parsed as {:?}", other),
    }
    match &program[4] {
        Stmt::IfElse(outer) => {
            assert!(matches!(outer.true_branch[0], Stmt::BlockExit(BlockExit::Continue)));
            assert_eq!(outer.else_branch.len(), 1);
            match &outer.else_branch[0] {
                Stmt::IfElse(inner) => {
                    assert!(inner.true_branch.is_empty());
                    assert!(matches!(
                        inner.else_branch[0],
                        Stmt::BlockExit(BlockExit::FnReturn(None))
                    ));
                }
                other => panic!("else branch is {:?}", other),
            }
        }
        other => panic!("parsed as {:?}", other),
    }
    assert!(matches!(program[5], Stmt::Expr(Expr::FnCall(_))));
}

#[test]
fn statement_reports_where_it_ends() {
    let tokens = tokenize("let x = 1 + 2; x = 3;");
    let found = parse_stmt(&tokens).unwrap();
    assert_eq!(found.next_index, 7);
}

#[test]
fn let_commits_to_a_declaration() {
    let tokens = tokenize("let 1 = 2;");
    let err = parse_tokens(&tokens).unwrap_err();
    assert!(!err.is_recoverable);
    assert_eq!(err.index, 1);
    match err.kind {
        ErrorKind::ExpectedToken { expected, .. } => assert_eq!(expected, ShallowTokenKind::Ident),
        other => panic!("unexpected kind {:?}", other),
    }
}

#[test]
fn error_index_counts_from_the_first_token() {
    let tokens = tokenize("x = 1; let y 2;");
    let err = parse_tokens(&tokens).unwrap_err();
    assert!(!err.is_recoverable);
    assert_eq!(err.index, 6);
}

#[test]
fn a_statement_without_semicolon_fails() {
    let tokens = tokenize("f(x) ");
    let err = parse_tokens(&tokens).unwrap_err();
    assert!(err.is_recoverable);
    match err.kind {
        ErrorKind::ExpectedToken { expected, .. } => {
            assert_eq!(expected, ShallowTokenKind::Semicolon)
        }
        other => panic!("unexpected kind {:?}", other),
    }
}

#[test]
fn a_broken_else_if_is_reported_as_it_is() {
    let tokens = tokenize("if (a) { } else if (b { }");
    let err = parse_tokens(&tokens).unwrap_err();
    assert!(!err.is_recoverable);
    match err.kind {
        ErrorKind::ExpectedToken { expected, .. } => {
            assert_eq!(expected, ShallowTokenKind::RightParen)
        }
        other => panic!("unexpected kind {:?}", other),
    }
}

#[test]
fn parse_string_reports_the_lexer() {
    match parse_string("let a = b") {
        Err(Error::Lex(e)) => assert_eq!(e.index, 8),
        other => panic!("unexpected {:?}", other),
    }
}

#[test]
fn parse_string_reports_the_parser() {
    assert!(matches!(parse_string("let = 1;"), Err(Error::Parse(_))));
}

#[test]
fn empty_source_is_the_empty_program() {
    assert!(parse_string("  // nothing\n").unwrap().is_empty());
}

#[test]
fn brackets_behind_an_expression_index_it() {
    let tokens = tokenize("a[b + 1]");
    match parse_expr(&tokens).unwrap() {
        Expr::Member(member) => {
            assert_eq!(ident_of(&member.parent), "a");
            assert!(matches!(*member.child, Expr::BinaryOp(_)));
        }
        other => panic!("parsed as {:?}", other),
    }
    let tokens = tokenize("m[1][0]");
    match parse_expr(&tokens).unwrap() {
        Expr::Member(outer) => {
            assert_eq!(numeral_of(&outer.child), "0");
            match *outer.parent {
                Expr::Member(inner) => {
                    assert_eq!(ident_of(&inner.parent), "m");
                    assert_eq!(numeral_of(&inner.child), "1");
                }
                other => panic!("parent is {:?}", other),
            }
        }
        other => panic!("parsed as {:?}", other),
    }
    // Brackets with nothing in front of them are an array literal.
    let tokens = tokenize("[a][0]");
    assert!(matches!(parse_expr(&tokens).unwrap(), Expr::Member(_)));
    let tokens = tokenize("[a]");
    assert!(matches!(parse_expr(&tokens).unwrap(), Expr::ArrayLiteral(_)));
    let tokens = tokenize("a[]");
    assert!(parse_expr(&tokens).is_err());
}

#[test]
fn a_dot_in_a_name_is_a_member() {
    let tokens = tokenize("o.b ");
    match parse_expr(&tokens).unwrap() {
        Expr::Member(member) => {
            assert_eq!(ident_of(&member.parent), "o");
            assert!(matches!(*member.child, Expr::StringLiteral(key) if key == "b"));
        }
        other => panic!("parsed as {:?}", other),
    }
    let tokens = tokenize("o.in.12 ");
    match parse_expr(&tokens).unwrap() {
        Expr::Member(outer) => {
            assert_eq!(numeral_of(&outer.child), "12");
            match *outer.parent {
                Expr::Member(inner) => {
                    assert_eq!(ident_of(&inner.parent), "o");
                    assert!(matches!(*inner.child, Expr::StringLiteral(key) if key == "in"));
                }
                other => panic!("parent is {:?}", other),
            }
        }
        other => panic!("parsed as {:?}", other),
    }
    for name in [".a ", "a. ", ". ", "ab "] {
        let tokens = tokenize(name);
        assert_eq!(ident_of(&parse_expr(&tokens).unwrap()), name.trim());
    }
}

#[test]
fn token_searches() {
    let tokens = tokenize("f ( a , [ b + ( c ) ] ) -= 1 ;");
    assert!(get_token_kind(&tokens, 0, ShallowTokenKind::Ident).is_ok());
    let err = get_token_kind(&tokens, 1, ShallowTokenKind::Ident).unwrap_err();
    assert_eq!(err.index, 1);
    assert!(matches!(
        err.kind,
        ErrorKind::ExpectedToken { expected: ShallowTokenKind::Ident, received: Some(_) }
    ));
    let err = get_token_kind(&tokens, 99, ShallowTokenKind::Ident).unwrap_err();
    assert_eq!(err.index, 99);
    assert!(matches!(err.kind, ErrorKind::ExpectedToken { received: None, .. }));

    assert_eq!(locate_first(&tokens, 0, ShallowTokenKind::LeftParen).unwrap(), 1);
    assert_eq!(locate_first(&tokens, 2, ShallowTokenKind::LeftParen).unwrap(), 7);
    let err = locate_first(&tokens, 8, ShallowTokenKind::LeftParen).unwrap_err();
    assert_eq!(err.index, tokens.len() - 1);
    assert!(matches!(err.kind, ErrorKind::ExpectedToken { received: Some(_), .. }));
    let err = locate_first(&[], 0, ShallowTokenKind::LeftParen).unwrap_err();
    assert_eq!(err.index, 0);
    assert!(matches!(err.kind, ErrorKind::ExpectedToken { received: None, .. }));

    assert_eq!(get_binary_op(&tokens, 6).unwrap(), BinaryOpKind::Add);
    assert!(matches!(
        get_binary_op(&tokens, 5).unwrap_err().kind,
        ErrorKind::ExpectedBinaryOperator { received: Some(_) }
    ));
    assert!(matches!(
        get_binary_op(&tokens, 99).unwrap_err().kind,
        ErrorKind::ExpectedBinaryOperator { received: None }
    ));

    let located = locate_first_binary_op(&tokens, 0).unwrap();
    assert_eq!((located.op, located.location), (BinaryOpKind::Add, 6));
    assert!(matches!(
        locate_first_binary_op(&tokens, 7).unwrap_err().kind,
        ErrorKind::ExpectedBinaryOperator { received: Some(_) }
    ));
    let located = locate_first_assign_op(&tokens, 1).unwrap();
    assert_eq!((located.op, located.location), (AssignOpKind::Op(BinaryOpKind::Subtract), 12));
    assert!(matches!(
        locate_first_assign_op(&tokens, 13).unwrap_err().kind,
        ErrorKind::ExpectedAssignmentOperator { received: Some(_) }
    ));

    let inner = &tokens[1..];
    assert_eq!(
        locate_last_matched_right(inner, ShallowTokenKind::LeftParen, ShallowTokenKind::RightParen)
            .unwrap(),
        10
    );
    let err = locate_last_matched_right(
        &tokens[1..10],
        ShallowTokenKind::LeftParen,
        ShallowTokenKind::RightParen,
    )
    .unwrap_err();
    assert_eq!(err.index, 8);
    assert!(matches!(
        err.kind,
        ErrorKind::ExpectedToken { expected: ShallowTokenKind::RightParen, received: None }
    ));
    assert!(locate_last_matched_right(
        &tokens,
        ShallowTokenKind::LeftParen,
        ShallowTokenKind::RightParen
    )
    .is_err());

    let brackets = tokenize("a [ b [ 0 ] ] [ 1 ]");
    assert_eq!(
        locate_first_matched_left(
            &brackets,
            ShallowTokenKind::LeftBracket,
            ShallowTokenKind::RightBracket
        )
        .unwrap(),
        7
    );
    assert_eq!(
        locate_first_matched_left(
            &brackets[..7],
            ShallowTokenKind::LeftBracket,
            ShallowTokenKind::RightBracket
        )
        .unwrap(),
        1
    );
    assert!(locate_first_matched_left(
        &brackets[2..7],
        ShallowTokenKind::LeftBracket,
        ShallowTokenKind::RightBracket
    )
    .is_err());
}

#[test]
fn each_parse_error_has_its_input() {
    assert!(matches!(
        parse_binary_op(&tokenize("a b ")).unwrap_err().kind,
        ErrorKind::ExpectedBinaryOperator { received: Some(_) }
    ));
    assert!(matches!(
        parse_binary_op(&[]).unwrap_err().kind,
        ErrorKind::ExpectedBinaryOperator { received: None }
    ));
    assert!(matches!(
        parse_var_assign(&tokenize("a ;")).unwrap_err().kind,
        ErrorKind::ExpectedAssignmentOperator { .. }
    ));
    assert!(matches!(
        parse_single_token(&tokenize("+ ")).unwrap_err().kind,
        ErrorKind::ExpectedLiteral { received: Some(_) }
    ));
    assert!(matches!(
        parse_single_token(&[]).unwrap_err().kind,
        ErrorKind::ExpectedLiteral { received: None }
    ));
    assert!(matches!(
        parse_single_token(&tokenize("a b ")).unwrap_err().kind,
        ErrorKind::FailedToConsume
    ));
    let err = parse_return(&tokenize("return + ;")).unwrap_err();
    assert!(!err.is_recoverable);
    assert!(parse_return(&tokenize("x ;")).unwrap_err().is_recoverable);
    assert!(parse_break_continue(&tokenize("break ;")).is_ok());
    assert!(parse_break_continue(&tokenize("continue ;")).is_ok());
    assert!(parse_break_continue(&tokenize("x ;")).unwrap_err().is_recoverable);
}
