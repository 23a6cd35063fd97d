use treewalk::lex::chars::{is_ident_terminator, is_whitespace};
use treewalk::lex::lexers::{
    lex_block_comment, lex_characters, lex_comments, lex_ident, lex_ignorables, lex_keyword,
    lex_line_comment, lex_number, lex_string, lex_to_end, lex_token, lex_whitespace,
};
use treewalk::lex::{ShallowTokenKind, Span, TokenKind};
use treewalk::ast::{AssignOpKind, BinaryOpKind};

fn chars(source: &str) -> Vec<char> {
    source.chars().collect()
}

fn kinds(source: &str) -> Vec<ShallowTokenKind> {
    lex_to_end(&chars(source)).unwrap().iter().map(|t| t.kind.as_shallow()).collect()
}

fn number_len(source: &str) -> Option<usize> {
    lex_number(&chars(source)).map(|found| found.next_index)
}

#[test]
fn span_keeps_its_ends() {
    let span = Span::new(3, 8);
    assert_eq!(span.start, 3);
    assert_eq!(span.end, 8);
}

#[test]
fn whitespace_is_the_unicode_property() {
    for c in ['\t', '\n', '\u{b}', '\u{c}', '\r', ' ', '\u{85}', '\u{a0}', '\u{2003}', '\u{3000}'] {
        assert!(is_whitespace(c));
    }
    for c in ['a', '0', '_', '\u{200b}', '\u{feff}'] {
        assert!(!is_whitespace(c));
    }
    let mut c = '\0';
    loop {
        assert_eq!(is_whitespace(c), c.is_whitespace());
        if c == '\u{ffff}' {
            break;
        }
        c = char::from_u32(c as u32 + 1).unwrap_or('\u{e000}');
    }
}

#[test]
fn ident_terminators() {
    for c in "(){},;:[] \n".chars() {
        assert!(is_ident_terminator(c));
    }
    for c in "+-=*/<>a1.\"".chars() {
        assert!(!is_ident_terminator(c));
    }
}

#[test]
fn whitespace_run() {
    assert_eq!(lex_whitespace(&chars("  \t\nx ")), 4);
    assert_eq!(lex_whitespace(&chars("x")), 0);
    assert_eq!(lex_whitespace(&chars("   ")), 3);
    assert_eq!(lex_whitespace(&chars("")), 0);
}

#[test]
fn line_comment_stops_before_the_line_feed() {
    assert_eq!(lex_line_comment(&chars("// hi\nx")), 5);
    assert_eq!(lex_line_comment(&chars("// hi")), 5);
    assert_eq!(lex_line_comment(&chars("/ / hi")), 0);
    assert_eq!(lex_line_comment(&chars("/")), 0);
}

#[test]
fn block_comment_runs_through_its_end() {
    assert_eq!(lex_block_comment(&chars("/* a\n b */ x")), 10);
    assert_eq!(lex_block_comment(&chars("/* open")), 7);
    assert_eq!(lex_block_comment(&chars("/*/ x")), 3);
    assert_eq!(lex_block_comment(&chars("x /* */")), 0);
}

#[test]
fn comments_are_a_line_comment_then_a_block_comment() {
    assert_eq!(lex_comments(&chars("//a")), 3);
    assert_eq!(lex_comments(&chars("/*a*/b")), 5);
    assert_eq!(lex_comments(&chars("//a\n/*b*/")), 3);
    assert_eq!(lex_comments(&chars("x")), 0);
}

#[test]
fn ignorables_repeat_until_stable() {
    assert_eq!(lex_ignorables(&chars("  // a\n  /* b */ \n // c\n x")), 25);
    assert_eq!(lex_ignorables(&chars("x  ")), 0);
    assert_eq!(lex_ignorables(&chars("/**//**/x")), 8);
}

#[test]
fn number_is_the_longest_numeral() {
    assert_eq!(number_len("12, b)"), Some(2));
    assert_eq!(number_len("1.5.3"), Some(3));
    assert_eq!(number_len("1..2"), Some(2));
    assert_eq!(number_len(".5x"), Some(2));
    assert_eq!(number_len("-3 "), Some(2));
    assert_eq!(number_len("+.5"), Some(3));
    assert_eq!(number_len("1e5x"), Some(3));
    assert_eq!(number_len("1E-5"), Some(4));
    assert_eq!(number_len("1.e5"), Some(4));
    assert_eq!(number_len("1e+"), Some(1));
    assert_eq!(number_len("1e"), Some(1));
    assert_eq!(number_len("1abc"), Some(1));
    assert_eq!(number_len("007"), Some(3));
}

#[test]
fn number_rejects_what_is_no_numeral() {
    assert_eq!(number_len(""), None);
    assert_eq!(number_len("."), None);
    assert_eq!(number_len("+"), None);
    assert_eq!(number_len("-.e1"), None);
    assert_eq!(number_len("e5"), None);
    assert_eq!(number_len("abc1"), None);
    assert_eq!(number_len("NaN"), None);
    assert_eq!(number_len("inf"), None);
    assert_eq!(number_len("Infinity"), None);
}

#[test]
fn every_numeral_is_a_double() {
    for source in ["12", "1.5", "1.", ".5", "-3", "+.5", "1e5", "1E-5", "1.e5", "007", "-0.0e+10"] {
        let found = lex_number(&chars(source)).unwrap();
        assert_eq!(found.next_index, source.len());
        match found.token {
            TokenKind::Number(numeral) => {
                assert_eq!(numeral, source);
                assert!(numeral.parse::<f64>().is_ok());
            }
            other => panic!("lexed as {:?}", other),
        }
    }
}

#[test]
fn number_is_the_longest_prefix_that_parses() {
    for source in ["12, b)", "1.5.3", "1..2", ".5x", "-3 ", "1e5x", "1e+", "1abc", "3)", "4e", "9.e"] {
        let all = chars(source);
        let mut expected = None;
        for end in (1..=all.len()).rev() {
            let prefix: String = all[..end].iter().collect();
            if prefix.parse::<f64>().is_ok() {
                expected = Some(end);
                break;
            }
        }
        assert_eq!(number_len(source), expected, "{}", source);
    }
}

#[test]
fn string_literal_has_no_escapes() {
    let found = lex_string(&chars("\"a\\\" b")).unwrap();
    assert_eq!(found.next_index, 4);
    assert!(matches!(found.token, TokenKind::String(text) if text == "a\\"));
    let empty = lex_string(&chars("\"\"x")).unwrap();
    assert_eq!(empty.next_index, 2);
    assert!(matches!(empty.token, TokenKind::String(text) if text.is_empty()));
}

#[test]
fn string_literal_must_be_closed() {
    assert!(lex_string(&chars("\"open")).is_none());
    assert!(lex_string(&chars("x\"\"")).is_none());
    assert!(lex_string(&chars("")).is_none());
}

#[test]
fn ident_runs_to_its_terminator() {
    let found = lex_ident(&chars("abc1+d)")).unwrap();
    assert_eq!(found.next_index, 6);
    assert!(matches!(found.token, TokenKind::Ident(name) if name == "abc1+d"));
}

#[test]
fn ident_needs_a_terminator_and_a_character() {
    assert!(lex_ident(&chars("abc")).is_none());
    assert!(lex_ident(&chars(")")).is_none());
    assert!(lex_ident(&chars("")).is_none());
}

#[test]
fn characters_match_a_prefix() {
    let found = lex_characters(&chars("==="), "==", TokenKind::DoubleEquals).unwrap();
    assert_eq!(found.next_index, 2);
    assert!(matches!(found.token, TokenKind::DoubleEquals));
    assert!(lex_characters(&chars("="), "==", TokenKind::DoubleEquals).is_none());
    assert!(lex_characters(&chars("a=="), "==", TokenKind::DoubleEquals).is_none());
}

#[test]
fn longer_operators_win() {
    let cases = [
        ("== 1", ShallowTokenKind::DoubleEquals, 2),
        ("= 1", ShallowTokenKind::Equals, 1),
        ("+= 1", ShallowTokenKind::AddEquals, 2),
        ("-= 1", ShallowTokenKind::SubtractEquals, 2),
        ("*= 1", ShallowTokenKind::MultiplyEquals, 2),
        ("/= 1", ShallowTokenKind::DivideEquals, 2),
        ("** 1", ShallowTokenKind::DoubleAsterisk, 2),
        ("* 1", ShallowTokenKind::Asterisk, 1),
        ("+ 1", ShallowTokenKind::Plus, 1),
        ("- 1", ShallowTokenKind::Minus, 1),
        ("/ 1", ShallowTokenKind::ForwardSlash, 1),
        ("break;", ShallowTokenKind::Break, 5),
        ("continue;", ShallowTokenKind::Continue, 8),
        ("return;", ShallowTokenKind::Return, 6),
        ("while(", ShallowTokenKind::While, 5),
        ("else{", ShallowTokenKind::Else, 4),
    ];
    for (source, kind, length) in cases {
        let found = lex_keyword(&chars(source)).unwrap();
        assert_eq!(found.token.as_shallow(), kind, "{}", source);
        assert_eq!(found.next_index, length, "{}", source);
    }
    assert!(lex_keyword(&chars("abc")).is_none());
}

#[test]
fn token_order_is_number_string_keyword_ident() {
    assert_eq!(lex_token(&chars("1abc ")).unwrap().next_index, 1);
    assert_eq!(lex_token(&chars("abc1 ")).unwrap().next_index, 4);
    assert_eq!(lex_token(&chars("fnord ")).unwrap().token.as_shallow(), ShallowTokenKind::Fn);
    assert_eq!(lex_token(&chars("\"fn\" ")).unwrap().token.as_shallow(), ShallowTokenKind::String);
    assert_eq!(lex_token(&chars("-1 ")).unwrap().token.as_shallow(), ShallowTokenKind::Number);
    assert!(lex_token(&chars("abc")).is_none());
    assert!(lex_token(&chars("")).is_none());
}

#[test]
fn lexes_a_statement() {
    assert_eq!(
        kinds("let x = 1 + 2 * 3; // done\nreturn x ;"),
        vec![
            ShallowTokenKind::Let,
            ShallowTokenKind::Ident,
            ShallowTokenKind::Equals,
            ShallowTokenKind::Number,
            ShallowTokenKind::Plus,
            ShallowTokenKind::Number,
            ShallowTokenKind::Asterisk,
            ShallowTokenKind::Number,
            ShallowTokenKind::Semicolon,
            ShallowTokenKind::Return,
            ShallowTokenKind::Ident,
            ShallowTokenKind::Semicolon,
        ]
    );
}

#[test]
fn spans_count_characters() {
    let tokens = lex_to_end(&chars("  é = \"ß\" ;")).unwrap();
    let spans: Vec<(usize, usize)> = tokens.iter().map(|t| (t.span.start, t.span.end)).collect();
    assert_eq!(spans, vec![(2, 3), (4, 5), (6, 9), (10, 11)]);
    assert!(matches!(&tokens[0].kind, TokenKind::Ident(name) if name == "é"));
    assert!(matches!(&tokens[2].kind, TokenKind::String(text) if text == "ß"));
}

#[test]
fn tokens_and_skipped_runs_rebuild_the_source() {
    let source = "fn f(a){ /* b */ return a+1 ; } // end\n let s = \"x y\" ;\n";
    let all = chars(source);
    let tokens = lex_to_end(&all).unwrap();
    let mut rebuilt = String::new();
    let mut cursor = 0;
    for token in &tokens {
        let gap = &all[cursor..token.span.start];
        assert_eq!(lex_ignorables(gap), gap.len());
        rebuilt.extend(gap.iter());
        rebuilt.extend(all[token.span.start..token.span.end].iter());
        cursor = token.span.end;
    }
    let gap = &all[cursor..];
    assert_eq!(lex_ignorables(gap), gap.len());
    rebuilt.extend(gap.iter());
    assert_eq!(rebuilt, source);
}

#[test]
fn lex_error_points_at_the_character() {
    assert_eq!(lex_to_end(&chars("let a = b")).unwrap_err().index, 8);
    assert_eq!(lex_to_end(&chars("  abc")).unwrap_err().index, 2);
    assert_eq!(treewalk::lex_string("x ; y").unwrap_err().index, 4);
}

#[test]
fn an_open_string_is_lexed_as_a_name() {
    let tokens = lex_to_end(&chars("let a = \"open ")).unwrap();
    assert!(matches!(&tokens[3].kind, TokenKind::Ident(name) if name == "\"open"));
}

#[test]
fn lex_error_describes_itself() {
    let e = lex_to_end(&chars("abc")).unwrap_err();
    assert_eq!(e.to_string(), "Lexer did not expect character at index 0");
}

#[test]
fn lex_string_is_lex_to_end_on_the_characters() {
    let source = "while (i < 5) { s = s + i; }";
    let a = treewalk::lex_string(source).unwrap();
    let b = lex_to_end(&chars(source)).unwrap();
    assert_eq!(a.len(), b.len());
    for (x, y) in a.iter().zip(b.iter()) {
        assert_eq!(x.span, y.span);
        assert_eq!(x.kind.as_shallow(), y.kind.as_shallow());
    }
}

#[test]
fn operators_of_tokens() {
    assert_eq!(TokenKind::Plus.as_binary_op(), Some(BinaryOpKind::Add));
    assert_eq!(TokenKind::Minus.as_binary_op(), Some(BinaryOpKind::Subtract));
    assert_eq!(TokenKind::Asterisk.as_binary_op(), Some(BinaryOpKind::Multiply));
    assert_eq!(TokenKind::ForwardSlash.as_binary_op(), Some(BinaryOpKind::Divide));
    assert_eq!(TokenKind::DoubleAsterisk.as_binary_op(), Some(BinaryOpKind::Pow));
    assert_eq!(TokenKind::DoubleEquals.as_binary_op(), Some(BinaryOpKind::Equals));
    assert_eq!(TokenKind::GreaterThan.as_binary_op(), Some(BinaryOpKind::GreaterThan));
    assert_eq!(TokenKind::LessThan.as_binary_op(), Some(BinaryOpKind::LessThan));
    assert_eq!(TokenKind::Equals.as_binary_op(), None);
    assert_eq!(TokenKind::Equals.as_assign_op(), Some(AssignOpKind::NoOp));
    assert_eq!(TokenKind::AddEquals.as_assign_op(), Some(AssignOpKind::Op(BinaryOpKind::Add)));
    assert_eq!(
        TokenKind::SubtractEquals.as_assign_op(),
        Some(AssignOpKind::Op(BinaryOpKind::Subtract))
    );
    assert_eq!(
        TokenKind::MultiplyEquals.as_assign_op(),
        Some(AssignOpKind::Op(BinaryOpKind::Multiply))
    );
    assert_eq!(
        TokenKind::DivideEquals.as_assign_op(),
        Some(AssignOpKind::Op(BinaryOpKind::Divide))
    );
    assert_eq!(TokenKind::DoubleEquals.as_assign_op(), None);
}
