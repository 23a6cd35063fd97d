//! The parsers of expressions.

use vstd::prelude::*;
use vstd::slice::slice_subrange;
use crate::ast::{BinaryOp, Expr, ExprView, Field, FnCall, Member};
use crate::lex::chars::{run_end, scan_run, CharClass};
use crate::text::{chars_of, string_from_chars};
use crate::lex::{ShallowTokenKind, Token, TokenKind};
use crate::parse::common_parsers::{agrees, parse_expr_list, parsed_expr_list, settles, exprs_of};
use crate::parse::error::{add_index, index_sum, Error, ErrorKind};
use crate::parse::tokens_ext::{
    expected_at,
    first_binary_op,
    get_token_kind,
    has_kind_at,
    last_token,
    locate_first_binary_op,
    locate_first_matched_left,
    locate_last_matched_right,
    matched_left,
    matched_right,
    LocatedBinaryOp,
};

verus! {

/// The expression that `tokens` are, all of them: the first of a binary operation, a call, a
/// single literal or name, an array literal, an object literal and an indexing that they can
/// be read as.
/// A failure that cannot be recovered from ends the search; where all fail, the failure of
/// the last is reported.
pub open spec fn parsed_expr(tokens: Seq<Token>) -> Result<ExprView, Error>
    decreases tokens.len(), 10int,
{
    let binary = parsed_binary_op(tokens, 0);
    if settles(binary) {
        binary
    } else {
        let call = parsed_fn_call(tokens);
        if settles(call) {
            call
        } else {
            let single = parsed_single_token(tokens);
            if settles(single) {
                single
            } else {
                let array = parsed_array_literal(tokens);
                if settles(array) {
                    array
                } else {
                    let object = parsed_object_literal(tokens);
                    if settles(object) {
                        object
                    } else {
                        parsed_member(tokens)
                    }
                }
            }
        }
    }
}

/// The index of the last `.` among the first `below` characters of `name`, or -1.
pub open spec fn last_dot(name: Seq<char>, below: int) -> int
    decreases below,
{
    if below <= 0 || below > name.len() {
        -1
    } else if name[below - 1] == '.' {
        below - 1
    } else {
        last_dot(name, below - 1)
    }
}

/// What a name is as an expression. A name with a `.` inside is a member expression: what
/// stands in front of the last `.` is the parent, read in the same way, and what stands
/// behind it the child: a number where it is made of digits, else a string, the key of a
/// field. Any other name is the name of a binding.
pub open spec fn lowered_name(name: Seq<char>) -> ExprView
    decreases name.len(),
{
    let dot = last_dot(name, name.len() as int);
    if 0 < dot < name.len() - 1 {
        let child = name.subrange(dot + 1, name.len() as int);
        ExprView::Member {
            parent: Box::new(lowered_name(name.subrange(0, dot))),
            child: Box::new(
                if run_end(child, CharClass::Digit, 0) == child.len() {
                    ExprView::NumberLiteral(child)
                } else {
                    ExprView::StringLiteral(child)
                },
            ),
        }
    } else {
        ExprView::Ident(name)
    }
}

/// Reads the characters `name` of a name as an expression.
pub fn lower_name(name: &[char]) -> (lowered: Expr)
    ensures
        lowered@ == lowered_name(name@),
    decreases name@.len(),
{
    let mut below: usize = name.len();
    while below > 0 && name[below - 1] != '.'
        invariant
            below <= name@.len(),
            last_dot(name@, name@.len() as int) == last_dot(name@, below as int),
        decreases below,
    {
        below -= 1;
    }
    assert(last_dot(name@, name@.len() as int) == below - 1);
    if below > 1 && below < name.len() {
        let dot = below - 1;
        let parent = lower_name(slice_subrange(name, 0, dot));
        let digits = slice_subrange(name, dot + 1, name.len());
        let text = string_from_chars(name, dot + 1, name.len());
        let child = if scan_run(digits, CharClass::Digit, 0) == digits.len() {
            Expr::NumberLiteral(text)
        } else {
            Expr::StringLiteral(text)
        };
        let ghost parent_view = parent@;
        let ghost child_view = child@;
        let lowered = Expr::Member(Member { parent: Box::new(parent), child: Box::new(child) });
        assert(lowered@ == ExprView::Member {
            parent: Box::new(parent_view),
            child: Box::new(child_view),
        });
        lowered
    } else {
        assert(name@.subrange(0, name@.len() as int) =~= name@);
        Expr::Ident(string_from_chars(name, 0, name.len()))
    }
}

/// The indexing that `tokens` are: an expression, and behind it, in square brackets, the
/// expression that indexes it.
pub open spec fn parsed_member(tokens: Seq<Token>) -> Result<ExprView, Error>
    decreases tokens.len(), 5int,
{
    match matched_left(tokens, ShallowTokenKind::LeftBracket, ShallowTokenKind::RightBracket) {
        Err(e) => Err(e),
        Ok(open) => if !(0 < open < tokens.len() - 1) {
            Err(expected_at(tokens, 0, ShallowTokenKind::Ident))
        } else {
            match parsed_expr(tokens.subrange(0, open as int)) {
                Err(e) => Err(e),
                Ok(parent) => match parsed_expr(tokens.subrange(open + 1, tokens.len() - 1)) {
                    Err(e) => Err(e.moved((open + 1) as usize)),
                    Ok(child) => Ok(
                        ExprView::Member { parent: Box::new(parent), child: Box::new(child) },
                    ),
                },
            }
        },
    }
}

/// A single token read as an expression: a number, a string, a name, `true` or `false`.
pub open spec fn parsed_single_token(tokens: Seq<Token>) -> Result<ExprView, Error> {
    if tokens.len() == 0 {
        Err(Error { index: 0, kind: ErrorKind::ExpectedLiteral { received: None }, is_recoverable: true })
    } else {
        let literal = match tokens[0].kind {
            TokenKind::Number(n) => Some(ExprView::NumberLiteral(n@)),
            TokenKind::String(s) => Some(ExprView::StringLiteral(s@)),
            TokenKind::Ident(i) => Some(lowered_name(i@)),
            TokenKind::True => Some(ExprView::BoolLiteral(true)),
            TokenKind::False => Some(ExprView::BoolLiteral(false)),
            _ => None,
        };
        match literal {
            None => Err(
                Error {
                    index: 0,
                    kind: ErrorKind::ExpectedLiteral { received: Some(tokens[0]) },
                    is_recoverable: true,
                },
            ),
            Some(e) => if tokens.len() != 1 {
                Err(Error { index: 1, kind: ErrorKind::FailedToConsume, is_recoverable: true })
            } else {
                Ok(e)
            },
        }
    }
}

/// The binary operation that `tokens` are: they are split at the first operator, at or after
/// `from`, on both sides of which stands an expression. So the operator that comes first
/// binds last: `a - b - c` is `a - (b - c)`.
pub open spec fn parsed_binary_op(tokens: Seq<Token>, from: int) -> Result<ExprView, Error>
    decreases tokens.len(), 5int, tokens.len() - from,
    when 0 <= from
{
    let location = first_binary_op(tokens, from);
    if from <= location < tokens.len() {
        let a = parsed_expr(tokens.subrange(0, location));
        let b = parsed_expr(tokens.subrange(location + 1, tokens.len() as int));
        match (a, b) {
            (Ok(a), Ok(b)) => Ok(
                ExprView::BinaryOp {
                    kind: tokens[location].kind.binary_op()->0,
                    a: Box::new(a),
                    b: Box::new(b),
                },
            ),
            _ => parsed_binary_op(tokens, location + 1),
        }
    } else {
        Err(
            Error {
                index: if tokens.len() > 0 {
                    (tokens.len() - 1) as usize
                } else {
                    0usize
                },
                kind: ErrorKind::ExpectedBinaryOperator { received: last_token(tokens) },
                is_recoverable: true,
            },
        )
    }
}

/// Whether `tokens` can be split at `location`: an operator stands there, and an expression
/// on both sides of it.
pub open spec fn splits_at(tokens: Seq<Token>, location: int) -> bool {
    &&& 0 <= location < tokens.len()
    &&& tokens[location].kind.binary_op() is Some
    &&& parsed_expr(tokens.subrange(0, location)) is Ok
    &&& parsed_expr(tokens.subrange(location + 1, tokens.len() as int)) is Ok
}

/// The operation that splitting `tokens` at `location` gives.
pub open spec fn split_at(tokens: Seq<Token>, location: int) -> ExprView {
    ExprView::BinaryOp {
        kind: tokens[location].kind.binary_op()->0,
        a: Box::new(parsed_expr(tokens.subrange(0, location))->Ok_0),
        b: Box::new(parsed_expr(tokens.subrange(location + 1, tokens.len() as int))->Ok_0),
    }
}

/// The first operator at or after `from` stands at or after `from`, and no operator stands
/// between `from` and it.
pub proof fn lemma_first_binary_op(tokens: Seq<Token>, from: int)
    requires
        0 <= from,
    ensures
        from <= first_binary_op(tokens, from) || tokens.len() <= from,
        first_binary_op(tokens, from) <= tokens.len(),
        first_binary_op(tokens, from) < tokens.len() ==> tokens[first_binary_op(
            tokens,
            from,
        )].kind.binary_op() is Some,
        forall|i: int|
            from <= i < first_binary_op(tokens, from) ==> (#[trigger] tokens[i]).kind.binary_op()
                is None,
    decreases tokens.len() - from,
{
    if from < tokens.len() && tokens[from].kind.binary_op() is None {
        lemma_first_binary_op(tokens, from + 1);
    }
}

/// A binary operation is split at the first operator at which it can be split: that operator
/// binds last, and what stands to its right is grouped first. Where the tokens can be split
/// nowhere, they are no binary operation.
pub proof fn lemma_binary_op_grouping(tokens: Seq<Token>, from: int)
    requires
        0 <= from,
    ensures
        match parsed_binary_op(tokens, from) {
            Ok(e) => exists|location: int|
                from <= location && #[trigger] splits_at(tokens, location) && e == split_at(
                    tokens,
                    location,
                ) && forall|earlier: int|
                    from <= earlier < location ==> !splits_at(tokens, earlier),
            Err(_) => forall|location: int| from <= location ==> !splits_at(tokens, location),
        },
    decreases tokens.len() - from,
{
    lemma_first_binary_op(tokens, from);
    let location = first_binary_op(tokens, from);
    if from <= location < tokens.len() {
        if splits_at(tokens, location) {
            assert(parsed_binary_op(tokens, from) == Ok::<ExprView, Error>(
                split_at(tokens, location),
            ));
        } else {
            lemma_binary_op_grouping(tokens, location + 1);
            assert(parsed_binary_op(tokens, from) == parsed_binary_op(tokens, location + 1));
        }
    }
}

/// The call that `tokens` are: a name and a parenthesised list of arguments, and nothing
/// behind it.
pub open spec fn parsed_fn_call(tokens: Seq<Token>) -> Result<ExprView, Error>
    decreases tokens.len(), 5int,
{
    if !has_kind_at(tokens, 0, ShallowTokenKind::Ident) {
        Err(expected_at(tokens, 0, ShallowTokenKind::Ident))
    } else {
        match parsed_expr_list(
            tokens.subrange(1, tokens.len() as int),
            ShallowTokenKind::Comma,
            ShallowTokenKind::LeftParen,
            ShallowTokenKind::RightParen,
        ) {
            Err(e) => Err(e.moved(1)),
            Ok(list) => if list.next_index + 1 != tokens.len() {
                Err(
                    Error {
                        index: list.next_index as usize,
                        kind: ErrorKind::FailedToConsume,
                        is_recoverable: true,
                    },
                )
            } else {
                Ok(ExprView::FnCall { ident: tokens[0].kind.text(), args: exprs_of(list.items) })
            },
        }
    }
}

/// The array literal that `tokens` are: a list in square brackets, and nothing behind it.
pub open spec fn parsed_array_literal(tokens: Seq<Token>) -> Result<ExprView, Error>
    decreases tokens.len(), 5int,
{
    match parsed_expr_list(
        tokens,
        ShallowTokenKind::Comma,
        ShallowTokenKind::LeftBracket,
        ShallowTokenKind::RightBracket,
    ) {
        Err(e) => Err(e),
        Ok(list) => if list.next_index != tokens.len() {
            Err(
                Error {
                    index: list.next_index as usize,
                    kind: ErrorKind::FailedToConsume,
                    is_recoverable: true,
                },
            )
        } else {
            Ok(ExprView::ArrayLiteral(exprs_of(list.items)))
        },
    }
}

/// The index of the field named `key`, or the number of fields where there is none.
pub open spec fn field_index(fields: Seq<(Seq<char>, ExprView)>, key: Seq<char>, from: int) -> int
    decreases fields.len() - from,
{
    if from < 0 || from >= fields.len() {
        fields.len() as int
    } else if fields[from].0 == key {
        from
    } else {
        field_index(fields, key, from + 1)
    }
}

/// The fields with `key` set to `value`: in place where the key is there, at the end where
/// it is new.
pub open spec fn with_field(fields: Seq<(Seq<char>, ExprView)>, key: Seq<char>, value: ExprView)
    -> Seq<(Seq<char>, ExprView)> {
    let at = field_index(fields, key, 0);
    if 0 <= at < fields.len() {
        fields.update(at, (key, value))
    } else {
        fields.push((key, value))
    }
}

/// The fields between the braces, added to `fields`: each is a name, a colon and the longest
/// run of tokens that is an expression and is followed by a comma or by the closing brace.
pub open spec fn parsed_fields(
    tokens: Seq<Token>,
    closing: int,
    start: int,
    d: int,
    fields: Seq<(Seq<char>, ExprView)>,
) -> Result<Seq<(Seq<char>, ExprView)>, Error>
    decreases tokens.len(), 3int, closing + 1 - start, closing - start - d,
    when 1 <= start && 0 <= d && closing < tokens.len()
{
    if start >= closing {
        Ok(fields)
    } else if !has_kind_at(tokens, start, ShallowTokenKind::Ident) {
        Err(expected_at(tokens, start as usize, ShallowTokenKind::Ident))
    } else if !has_kind_at(tokens, start + 1, ShallowTokenKind::Colon) {
        Err(expected_at(tokens, (start + 1) as usize, ShallowTokenKind::Colon))
    } else if start + 2 + d >= closing {
        Err(
            Error {
                index: index_sum(start as usize, 3),
                kind: ErrorKind::NoValidExpr,
                is_recoverable: true,
            },
        )
    } else if d != 0 && !has_kind_at(tokens, closing - d, ShallowTokenKind::Comma) {
        parsed_fields(tokens, closing, start, d + 1, fields)
    } else {
        match parsed_expr(tokens.subrange(start + 2, closing - d)) {
            Ok(value) => parsed_fields(
                tokens,
                closing,
                closing - d + 1,
                0,
                with_field(fields, tokens[start].kind.text(), value),
            ),
            Err(_) => parsed_fields(tokens, closing, start, d + 1, fields),
        }
    }
}

/// The object literal that `tokens` are: fields in braces, and nothing behind them. A key
/// that is written twice keeps its last value.
pub open spec fn parsed_object_literal(tokens: Seq<Token>) -> Result<ExprView, Error>
    decreases tokens.len(), 5int,
{
    match matched_right(tokens, ShallowTokenKind::LeftBrace, ShallowTokenKind::RightBrace) {
        Err(e) => Err(e),
        Ok(closing) => if closing != tokens.len() - 1 {
            Err(Error { index: closing, kind: ErrorKind::FailedToConsume, is_recoverable: true })
        } else if closing == 1 {
            Ok(ExprView::ObjectLiteral(Seq::empty()))
        } else if 1 < closing {
            match parsed_fields(tokens, closing as int, 1, 0, Seq::empty()) {
                Ok(fields) => Ok(ExprView::ObjectLiteral(fields)),
                Err(e) => Err(e),
            }
        } else {
            Err(expected_at(tokens, 0, ShallowTokenKind::LeftBrace))
        },
    }
}

/// Runs all expression parsers over `tokens`, returning the first success, the first failure
/// that cannot be recovered from, or else the last failure.
pub fn parse_expr(tokens: &[Token]) -> (parsed: Result<Expr, Error>)
    ensures
        agrees(parsed, parsed_expr(tokens@)),
    decreases tokens@.len(), 10int,
{
    match parse_binary_op(tokens) {
        Ok(e) => {
            return Ok(e);
        },
        Err(err) => {
            if !err.is_recoverable {
                return Err(err);
            }
        },
    }
    match parse_fn_call(tokens) {
        Ok(e) => {
            return Ok(e);
        },
        Err(err) => {
            if !err.is_recoverable {
                return Err(err);
            }
        },
    }
    match parse_single_token(tokens) {
        Ok(e) => {
            return Ok(e);
        },
        Err(err) => {
            if !err.is_recoverable {
                return Err(err);
            }
        },
    }
    match parse_array_literal(tokens) {
        Ok(e) => {
            return Ok(e);
        },
        Err(err) => {
            if !err.is_recoverable {
                return Err(err);
            }
        },
    }
    match parse_object_literal(tokens) {
        Ok(e) => {
            return Ok(e);
        },
        Err(err) => {
            if !err.is_recoverable {
                return Err(err);
            }
        },
    }
    parse_member(tokens)
}

/// Parses an indexing: an expression, and behind it an expression in square brackets.
pub fn parse_member(tokens: &[Token]) -> (parsed: Result<Expr, Error>)
    ensures
        agrees(parsed, parsed_member(tokens@)),
    decreases tokens@.len(), 5int,
{
    let open = match locate_first_matched_left(
        tokens,
        ShallowTokenKind::LeftBracket,
        ShallowTokenKind::RightBracket,
    ) {
        Ok(open) => open,
        Err(e) => {
            return Err(e);
        },
    };
    if open == 0 {
        return Err(Error::expected_token(0, ShallowTokenKind::Ident, Some(tokens[0].clone())));
    }
    let parent = match parse_expr(slice_subrange(tokens, 0, open)) {
        Ok(parent) => parent,
        Err(e) => {
            return Err(e);
        },
    };
    match parse_expr(slice_subrange(tokens, open + 1, tokens.len() - 1)) {
        Err(e) => Err(e.offset(open + 1)),
        Ok(child) => Ok(Expr::Member(Member { parent: Box::new(parent), child: Box::new(child) })),
    }
}

/// Parses a single token as a literal or a name.
pub fn parse_single_token(tokens: &[Token]) -> (parsed: Result<Expr, Error>)
    ensures
        agrees(parsed, parsed_single_token(tokens@)),
{
    if tokens.len() == 0 {
        return Err(Error::expected_literal(0, None));
    }
    let token = &tokens[0];
    let expr = match &token.kind {
        TokenKind::Number(n) => Expr::NumberLiteral(n.clone()),
        TokenKind::String(s) => Expr::StringLiteral(s.clone()),
        TokenKind::Ident(i) => lower_name(chars_of(i.as_str()).as_slice()),
        TokenKind::True => Expr::BoolLiteral(true),
        TokenKind::False => Expr::BoolLiteral(false),
        _ => {
            return Err(Error::expected_literal(0, Some(token.clone())));
        },
    };
    if tokens.len() != 1 {
        return Err(Error::failed_to_consume(1));
    }
    Ok(expr)
}

/// Parses a binary operation: the tokens are split at the first operator on both sides of
/// which stands an expression.
pub fn parse_binary_op(tokens: &[Token]) -> (parsed: Result<Expr, Error>)
    ensures
        agrees(parsed, parsed_binary_op(tokens@, 0)),
    decreases tokens@.len(), 5int,
{
    let mut scan_start: usize = 0;
    let total = tokens.len();
    loop
        invariant
            total == tokens@.len(),
            parsed_binary_op(tokens@, 0) == parsed_binary_op(tokens@, scan_start as int),
        decreases tokens@.len(), 5int, tokens@.len() - scan_start,
    {
        let LocatedBinaryOp { op, location } = match locate_first_binary_op(tokens, scan_start) {
            Ok(located) => located,
            Err(e) => {
                return Err(e);
            },
        };
        let a_tokens = slice_subrange(tokens, 0, location);
        let b_tokens = slice_subrange(tokens, location + 1, tokens.len());
        match parse_expr(a_tokens) {
            Ok(a) => match parse_expr(b_tokens) {
                Ok(b) => {
                    return Ok(Expr::BinaryOp(BinaryOp { kind: op, a: Box::new(a), b: Box::new(b) }));
                },
                Err(_) => {},
            },
            Err(_) => {},
        }
        scan_start = location + 1;
    }
}

/// Parses a call: a name and a parenthesised list of arguments.
pub fn parse_fn_call(tokens: &[Token]) -> (parsed: Result<Expr, Error>)
    ensures
        agrees(parsed, parsed_fn_call(tokens@)),
    decreases tokens@.len(), 5int,
{
    let ident = match get_token_kind(tokens, 0, ShallowTokenKind::Ident) {
        Ok(TokenKind::Ident(name)) => name.clone(),
        Ok(_) => {
            return Err(Error::expected_token(0, ShallowTokenKind::Ident, None));
        },
        Err(e) => {
            return Err(e);
        },
    };
    let found_list = match parse_expr_list(
        slice_subrange(tokens, 1, tokens.len()),
        ShallowTokenKind::Comma,
        ShallowTokenKind::LeftParen,
        ShallowTokenKind::RightParen,
    ) {
        Ok(list) => list,
        Err(e) => {
            return Err(e.offset(1));
        },
    };
    if found_list.next_index + 1 != tokens.len() {
        return Err(Error::failed_to_consume(found_list.next_index));
    }
    let ghost items = found_list@.items;
    let args = found_list.into_exprs();
    let call = Expr::FnCall(FnCall { ident, args });
    assert(call@->FnCall_args =~= exprs_of(items));
    Ok(call)
}

/// Parses an array literal: a list of expressions in square brackets.
pub fn parse_array_literal(tokens: &[Token]) -> (parsed: Result<Expr, Error>)
    ensures
        agrees(parsed, parsed_array_literal(tokens@)),
    decreases tokens@.len(), 5int,
{
    let found_list = match parse_expr_list(
        tokens,
        ShallowTokenKind::Comma,
        ShallowTokenKind::LeftBracket,
        ShallowTokenKind::RightBracket,
    ) {
        Ok(list) => list,
        Err(e) => {
            return Err(e);
        },
    };
    if found_list.next_index != tokens.len() {
        return Err(Error::failed_to_consume(found_list.next_index));
    }
    let ghost items = found_list@.items;
    let array = Expr::ArrayLiteral(found_list.into_exprs());
    assert(array@->ArrayLiteral_0 =~= exprs_of(items));
    Ok(array)
}

/// The views of the fields of an object literal, in order.
pub open spec fn field_views(fields: Seq<Field>) -> Seq<(Seq<char>, ExprView)> {
    fields.map_values(|field: Field| (field.key@, field.value@))
}

/// Sets the field `key` to `value`: in place where the key is there, at the end where it is
/// new.
pub fn insert_field(fields: &mut Vec<Field>, key: String, value: Expr)
    ensures
        field_views(final(fields)@) == with_field(field_views(old(fields)@), key@, value@),
{
    let ghost before = field_views(fields@);
    let mut index: usize = 0;
    while index < fields.len()
        invariant
            index <= fields@.len(),
            fields@ == old(fields)@,
            before == field_views(fields@),
            field_index(before, key@, 0) == field_index(before, key@, index as int),
        decreases fields@.len() - index,
    {
        if fields[index].key == key {
            let mut replaced = Field { key, value };
            let ghost view = (replaced.key@, replaced.value@);
            fields.push(replaced);
            let _ = fields.swap_remove(index);
            assert(field_views(fields@) =~= before.update(index as int, view));
            return ;
        }
        index += 1;
    }
    fields.push(Field { key, value });
    assert(field_views(fields@) =~= before.push((key@, value@)));
}

/// Parses an object literal: `name: expression` fields in braces, with commas between them.
pub fn parse_object_literal(tokens: &[Token]) -> (parsed: Result<Expr, Error>)
    ensures
        agrees(parsed, parsed_object_literal(tokens@)),
    decreases tokens@.len(), 5int,
{
    let closing_index = match locate_last_matched_right(
        tokens,
        ShallowTokenKind::LeftBrace,
        ShallowTokenKind::RightBrace,
    ) {
        Ok(index) => index,
        Err(e) => {
            return Err(e);
        },
    };
    if closing_index != tokens.len() - 1 {
        return Err(Error::failed_to_consume(closing_index));
    }
    let mut items: Vec<Field> = Vec::new();
    if closing_index == 1 {
        let object = Expr::ObjectLiteral(items);
        assert(object@->ObjectLiteral_0 =~= Seq::<(Seq<char>, ExprView)>::empty());
        return Ok(object);
    }
    let mut current_start: usize = 1;
    let mut d: usize = 0;
    let ghost whole = parsed_fields(tokens@, closing_index as int, 1, 0, Seq::empty());
    assert(field_views(items@) =~= Seq::<(Seq<char>, ExprView)>::empty());
    let total = tokens.len();
    while current_start < closing_index
        invariant
            total == tokens@.len(),
            1 < closing_index < tokens@.len(),
            1 <= current_start,
            matched_right(tokens@, ShallowTokenKind::LeftBrace, ShallowTokenKind::RightBrace)
                == Ok::<usize, Error>(closing_index),
            closing_index == tokens@.len() - 1,
            whole == parsed_fields(tokens@, closing_index as int, 1, 0, Seq::empty()),
            whole == parsed_fields(
                tokens@,
                closing_index as int,
                current_start as int,
                d as int,
                field_views(items@),
            ),
        decreases closing_index + 1 - current_start, closing_index - current_start - d,
    {
        let key = match get_token_kind(tokens, current_start, ShallowTokenKind::Ident) {
            Ok(TokenKind::Ident(name)) => name.clone(),
            Ok(_) => {
                return Err(Error::expected_token(current_start, ShallowTokenKind::Ident, None));
            },
            Err(e) => {
                return Err(e);
            },
        };
        match get_token_kind(tokens, current_start + 1, ShallowTokenKind::Colon) {
            Ok(_) => {},
            Err(e) => {
                return Err(e);
            },
        }
        let room = closing_index - current_start;
        if d >= room || d + 2 >= room {
            return Err(Error::no_valid_expr(add_index(current_start, 3)));
        }
        if d != 0 && get_token_kind(tokens, closing_index - d, ShallowTokenKind::Comma).is_err() {
            d += 1;
            continue ;
        }
        let current = slice_subrange(tokens, current_start + 2, closing_index - d);
        match parse_expr(current) {
            Ok(expr) => {
                insert_field(&mut items, key, expr);
                current_start = closing_index - d + 1;
                d = 0;
            },
            Err(_) => {
                d += 1;
            },
        }
    }
    let object = Expr::ObjectLiteral(items);
    assert(object@->ObjectLiteral_0 =~= field_views(items@));
    Ok(object)
}

} // verus!
