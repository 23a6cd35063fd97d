//! Searches over a slice of tokens: the token at an index, the first token of a kind, the
//! bracket that closes the first one.

use vstd::prelude::*;
use crate::ast::{AssignOpKind, BinaryOpKind};
use crate::lex::{ShallowTokenKind, Token, TokenKind};
use crate::parse::error::{Error, ErrorKind};

verus! {

/// A binary operator and the index of its token.
#[derive(Debug, Clone, Copy, PartialEq, Eq, Structural)]
pub struct LocatedBinaryOp {
    pub op: BinaryOpKind,
    pub location: usize,
}

/// An assignment operator and the index of its token.
#[derive(Debug, Clone, Copy, PartialEq, Eq, Structural)]
pub struct LocatedAssignOp {
    pub op: AssignOpKind,
    pub location: usize,
}

/// The last token of `tokens`, if there is one.
pub open spec fn last_token(tokens: Seq<Token>) -> Option<Token> {
    if tokens.len() > 0 {
        Some(tokens[tokens.len() - 1])
    } else {
        None
    }
}

/// The error for a token of `kind` that was expected at `index` and is not there.
pub open spec fn expected_at(tokens: Seq<Token>, index: usize, kind: ShallowTokenKind) -> Error {
    Error {
        index,
        kind: ErrorKind::ExpectedToken {
            expected: kind,
            received: if index < tokens.len() {
                Some(tokens[index as int])
            } else {
                None
            },
        },
        is_recoverable: true,
    }
}

/// Whether the token at `index` is of `kind`.
pub open spec fn has_kind_at(tokens: Seq<Token>, index: int, kind: ShallowTokenKind) -> bool {
    0 <= index < tokens.len() && tokens[index].kind.shallow() == kind
}

/// The first index at or after `from` whose token is of `kind`, or the length of `tokens`.
pub open spec fn first_of_kind(tokens: Seq<Token>, from: int, kind: ShallowTokenKind) -> int
    decreases tokens.len() - from,
{
    if from < 0 || from >= tokens.len() {
        tokens.len() as int
    } else if tokens[from].kind.shallow() == kind {
        from
    } else {
        first_of_kind(tokens, from + 1, kind)
    }
}

/// The first index at or after `from` whose token writes a binary operator, or the length.
pub open spec fn first_binary_op(tokens: Seq<Token>, from: int) -> int
    decreases tokens.len() - from,
{
    if from < 0 || from >= tokens.len() {
        tokens.len() as int
    } else if tokens[from].kind.binary_op() is Some {
        from
    } else {
        first_binary_op(tokens, from + 1)
    }
}

/// The first index at or after `from` whose token writes an assignment operator, or the
/// length.
pub open spec fn first_assign_op(tokens: Seq<Token>, from: int) -> int
    decreases tokens.len() - from,
{
    if from < 0 || from >= tokens.len() {
        tokens.len() as int
    } else if tokens[from].kind.assign_op() is Some {
        from
    } else {
        first_assign_op(tokens, from + 1)
    }
}

/// The index of the `right` that brings the count of open `left`s to zero, scanning from
/// `from` with `depth` of them open, or the length of `tokens` where none does.
pub open spec fn closing_from(
    tokens: Seq<Token>,
    left: ShallowTokenKind,
    right: ShallowTokenKind,
    from: int,
    depth: int,
) -> int
    decreases tokens.len() - from,
{
    if from < 0 || from >= tokens.len() {
        tokens.len() as int
    } else if tokens[from].kind.shallow() == left {
        closing_from(tokens, left, right, from + 1, depth + 1)
    } else if tokens[from].kind.shallow() == right {
        if depth == 1 {
            from
        } else {
            closing_from(tokens, left, right, from + 1, depth - 1)
        }
    } else {
        closing_from(tokens, left, right, from + 1, depth)
    }
}

/// The index of the `left` that is closed by the `right` behind the tokens in front of
/// `before`, scanning backwards with `depth` of them to close; -1 where there is none.
pub open spec fn opening_before(
    tokens: Seq<Token>,
    left: ShallowTokenKind,
    right: ShallowTokenKind,
    before: int,
    depth: int,
) -> int
    decreases before,
{
    if before <= 0 || before > tokens.len() {
        -1
    } else if tokens[before - 1].kind.shallow() == right {
        opening_before(tokens, left, right, before - 1, depth + 1)
    } else if tokens[before - 1].kind.shallow() == left {
        if depth == 1 {
            before - 1
        } else {
            opening_before(tokens, left, right, before - 1, depth - 1)
        }
    } else {
        opening_before(tokens, left, right, before - 1, depth)
    }
}

/// What `locate_first_matched_left` returns.
pub open spec fn matched_left(tokens: Seq<Token>, left: ShallowTokenKind, right: ShallowTokenKind)
    -> Result<usize, Error> {
    if tokens.len() == 0 || tokens[tokens.len() - 1].kind.shallow() != right {
        Err(expected_at(tokens, last_index_of(tokens), right))
    } else {
        let open = opening_before(tokens, left, right, tokens.len() - 1, 1);
        if 0 <= open < tokens.len() {
            Ok(open as usize)
        } else {
            Err(
                Error {
                    index: 0,
                    kind: ErrorKind::ExpectedToken { expected: left, received: None },
                    is_recoverable: true,
                },
            )
        }
    }
}

/// The index of the last token, or zero.
pub open spec fn last_index_of(tokens: Seq<Token>) -> usize {
    if tokens.len() > 0 {
        (tokens.len() - 1) as usize
    } else {
        0usize
    }
}

/// What `locate_last_matched_right` returns.
pub open spec fn matched_right(tokens: Seq<Token>, left: ShallowTokenKind, right: ShallowTokenKind)
    -> Result<usize, Error> {
    if !has_kind_at(tokens, 0, left) {
        Err(expected_at(tokens, 0, left))
    } else {
        let close = closing_from(tokens, left, right, 1, 1);
        if close < tokens.len() {
            Ok(close as usize)
        } else {
            Err(
                Error {
                    index: (tokens.len() - 1) as usize,
                    kind: ErrorKind::ExpectedToken { expected: right, received: None },
                    is_recoverable: true,
                },
            )
        }
    }
}

/// The closing bracket stands behind the opening one, within the tokens.
pub proof fn lemma_closing_from(
    tokens: Seq<Token>,
    left: ShallowTokenKind,
    right: ShallowTokenKind,
    from: int,
    depth: int,
)
    requires
        0 <= from,
    ensures
        from <= closing_from(tokens, left, right, from, depth) <= tokens.len() || tokens.len()
            < from,
        closing_from(tokens, left, right, from, depth) < tokens.len() ==> tokens[closing_from(
            tokens,
            left,
            right,
            from,
            depth,
        )].kind.shallow() == right,
    decreases tokens.len() - from,
{
    if from < tokens.len() {
        if tokens[from].kind.shallow() == left {
            lemma_closing_from(tokens, left, right, from + 1, depth + 1);
        } else if tokens[from].kind.shallow() == right {
            if depth != 1 {
                lemma_closing_from(tokens, left, right, from + 1, depth - 1);
            }
        } else {
            lemma_closing_from(tokens, left, right, from + 1, depth);
        }
    }
}

/// The kind of the token at `index`, which must be `kind`.
pub fn get_token_kind<'a>(tokens: &'a [Token], index: usize, kind: ShallowTokenKind) -> (found:
    Result<&'a TokenKind, Error>)
    ensures
        match found {
            Ok(k) => has_kind_at(tokens@, index as int, kind) && *k == tokens@[index as int].kind,
            Err(e) => !has_kind_at(tokens@, index as int, kind) && e == expected_at(
                tokens@,
                index,
                kind,
            ),
        },
{
    if index >= tokens.len() {
        return Err(Error::expected_token(index, kind, None));
    }
    let token = &tokens[index];
    if token.kind.as_shallow() == kind {
        Ok(&token.kind)
    } else {
        Err(Error::expected_token(index, kind, Some(token.clone())))
    }
}

/// The error for a search that found nothing: it points at the last token.
fn last_index(tokens: &[Token]) -> (index: usize)
    ensures
        index == (if tokens@.len() > 0 {
            (tokens@.len() - 1) as usize
        } else {
            0usize
        }),
{
    if tokens.len() > 0 {
        tokens.len() - 1
    } else {
        0
    }
}

/// A copy of the last token, if there is one.
fn last_cloned(tokens: &[Token]) -> (last: Option<Token>)
    ensures
        last == last_token(tokens@),
{
    if tokens.len() > 0 {
        Some(tokens[tokens.len() - 1].clone())
    } else {
        None
    }
}

/// The index of the first token of `kind` at or after `starting_at`.
pub fn locate_first(tokens: &[Token], starting_at: usize, kind: ShallowTokenKind) -> (found: Result<
    usize,
    Error,
>)
    ensures
        match found {
            Ok(index) => starting_at <= index < tokens.len() && index as int == first_of_kind(
                tokens@,
                starting_at as int,
                kind,
            ) && tokens@[index as int].kind.shallow() == kind,
            Err(e) => first_of_kind(tokens@, starting_at as int, kind) >= tokens@.len() && e == (
            Error {
                index: if tokens@.len() > 0 {
                    (tokens@.len() - 1) as usize
                } else {
                    0usize
                },
                kind: ErrorKind::ExpectedToken { expected: kind, received: last_token(tokens@) },
                is_recoverable: true,
            }),
        },
{
    let mut index: usize = starting_at;
    while index < tokens.len()
        invariant
            starting_at <= index,
            first_of_kind(tokens@, starting_at as int, kind) == first_of_kind(
                tokens@,
                index as int,
                kind,
            ),
        decreases tokens@.len() - index,
    {
        if tokens[index].kind.as_shallow() == kind {
            return Ok(index);
        }
        index += 1;
    }
    Err(Error::expected_token(last_index(tokens), kind, last_cloned(tokens)))
}

/// The binary operator that the token at `index` writes.
pub fn get_binary_op(tokens: &[Token], index: usize) -> (found: Result<BinaryOpKind, Error>)
    ensures
        match found {
            Ok(op) => index < tokens@.len() && tokens@[index as int].kind.binary_op() == Some(op),
            Err(e) => (index >= tokens@.len() || tokens@[index as int].kind.binary_op() is None)
                && e == (Error {
                index,
                kind: ErrorKind::ExpectedBinaryOperator {
                    received: if index < tokens@.len() {
                        Some(tokens@[index as int])
                    } else {
                        None
                    },
                },
                is_recoverable: true,
            }),
        },
{
    if index >= tokens.len() {
        return Err(Error::expected_binary_operator(index, None));
    }
    let token = &tokens[index];
    match token.kind.as_binary_op() {
        Some(op) => Ok(op),
        None => Err(Error::expected_binary_operator(index, Some(token.clone()))),
    }
}

/// Finds the bracket that closes the first one: the final `]` in `[a + [b]]`.
///
/// The first token must be `left`. Fails with an expected `right` where the bracket is not
/// closed.
pub fn locate_last_matched_right(tokens: &[Token], left: ShallowTokenKind, right: ShallowTokenKind)
    -> (found: Result<usize, Error>)
    ensures
        found == matched_right(tokens@, left, right),
        found matches Ok(close) ==> 1 <= close < tokens.len() && tokens@[close as int].kind.shallow()
            == right,
{
    match get_token_kind(tokens, 0, left) {
        Err(e) => {
            return Err(e);
        },
        Ok(_) => {},
    }
    proof {
        lemma_closing_from(tokens@, left, right, 1, 1);
    }
    let mut left_count: usize = 1;
    let mut index: usize = 1;
    while index < tokens.len()
        invariant
            1 <= index,
            1 <= left_count <= index,
            has_kind_at(tokens@, 0, left),
            closing_from(tokens@, left, right, 1, 1) == closing_from(
                tokens@,
                left,
                right,
                index as int,
                left_count as int,
            ),
        decreases tokens@.len() - index,
    {
        let kind = tokens[index].kind.as_shallow();
        if kind == left {
            left_count += 1;
        } else if kind == right {
            if left_count == 1 {
                return Ok(index);
            } else {
                left_count -= 1;
            }
        }
        index += 1;
    }
    Err(Error::expected_token(tokens.len() - 1, right, None))
}

/// Finds the bracket that the last bracket closes: the first `[` in `a[b[0]]`.
///
/// The last token must be `right`. Fails with an expected `left` where nothing opens it.
pub fn locate_first_matched_left(tokens: &[Token], left: ShallowTokenKind, right: ShallowTokenKind)
    -> (found: Result<usize, Error>)
    ensures
        found == matched_left(tokens@, left, right),
        found matches Ok(open) ==> open + 1 < tokens.len() && tokens@[open as int].kind.shallow()
            == left,
{
    let total = tokens.len();
    match get_token_kind(tokens, last_index(tokens), right) {
        Err(e) => {
            return Err(e);
        },
        Ok(_) => {},
    }
    let mut depth: usize = 1;
    let mut before: usize = total - 1;
    while before > 0
        invariant
            total == tokens@.len(),
            total > 0,
            tokens@[total - 1].kind.shallow() == right,
            before < total,
            1 <= depth <= total - before,
            opening_before(tokens@, left, right, total - 1, 1) == opening_before(
                tokens@,
                left,
                right,
                before as int,
                depth as int,
            ),
        decreases before,
    {
        let kind = tokens[before - 1].kind.as_shallow();
        if kind == right {
            depth += 1;
        } else if kind == left {
            if depth == 1 {
                return Ok(before - 1);
            } else {
                depth -= 1;
            }
        }
        before -= 1;
    }
    Err(Error::expected_token(0, left, None))
}

/// The first binary operator at or after `starting_at`.
pub fn locate_first_binary_op(tokens: &[Token], starting_at: usize) -> (found: Result<
    LocatedBinaryOp,
    Error,
>)
    ensures
        match found {
            Ok(located) => starting_at <= located.location < tokens.len() && located.location as int
                == first_binary_op(tokens@, starting_at as int) && tokens@[located.location as int].kind.binary_op()
                == Some(located.op),
            Err(e) => first_binary_op(tokens@, starting_at as int) >= tokens@.len() && e == (
            Error {
                index: if tokens@.len() > 0 {
                    (tokens@.len() - 1) as usize
                } else {
                    0usize
                },
                kind: ErrorKind::ExpectedBinaryOperator { received: last_token(tokens@) },
                is_recoverable: true,
            }),
        },
{
    let mut index: usize = starting_at;
    while index < tokens.len()
        invariant
            starting_at <= index,
            first_binary_op(tokens@, starting_at as int) == first_binary_op(tokens@, index as int),
        decreases tokens@.len() - index,
    {
        if let Some(op) = tokens[index].kind.as_binary_op() {
            return Ok(LocatedBinaryOp { op, location: index });
        }
        index += 1;
    }
    Err(Error::expected_binary_operator(last_index(tokens), last_cloned(tokens)))
}

/// The first assignment operator at or after `starting_at`.
pub fn locate_first_assign_op(tokens: &[Token], starting_at: usize) -> (found: Result<
    LocatedAssignOp,
    Error,
>)
    ensures
        match found {
            Ok(located) => starting_at <= located.location < tokens.len() && located.location as int
                == first_assign_op(tokens@, starting_at as int) && tokens@[located.location as int].kind.assign_op()
                == Some(located.op),
            Err(e) => first_assign_op(tokens@, starting_at as int) >= tokens@.len() && e == (
            Error {
                index: if tokens@.len() > 0 {
                    (tokens@.len() - 1) as usize
                } else {
                    0usize
                },
                kind: ErrorKind::ExpectedAssignmentOperator { received: last_token(tokens@) },
                is_recoverable: true,
            }),
        },
{
    let mut index: usize = starting_at;
    while index < tokens.len()
        invariant
            starting_at <= index,
            first_assign_op(tokens@, starting_at as int) == first_assign_op(tokens@, index as int),
        decreases tokens@.len() - index,
    {
        if let Some(op) = tokens[index].kind.as_assign_op() {
            return Ok(LocatedAssignOp { op, location: index });
        }
        index += 1;
    }
    Err(Error::expected_assignment_operator(last_index(tokens), last_cloned(tokens)))
}

} // verus!
