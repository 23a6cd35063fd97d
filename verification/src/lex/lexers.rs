//! The scanners: one for each kind of token and of skipped text, and the loop that drives them.

use vstd::prelude::*;
use vstd::string::StrSliceExecFns;
use crate::lex::chars::{lemma_run_end, lemma_run_end_prefix, run_end, scan_run, CharClass};
use crate::lex::error::Error;
use crate::lex::token::{ShallowTokenKind, Span, Token, TokenKind, TokenView};
use crate::text::{starts_with, string_from_chars};

verus! {

/// A token found at the start of some text.
#[derive(Debug)]
pub struct FoundToken {
    /// The index of the character after the token.
    pub next_index: usize,
    /// The token that was found.
    pub token: TokenKind,
}

/// The length of the white space that `s` begins with.
pub open spec fn whitespace_len(s: Seq<char>) -> int {
    run_end(s, CharClass::Whitespace, 0)
}

/// The length of the line comment that `s` begins with: from `//` up to, not including, the
/// line feed. Zero where `s` begins with none.
pub open spec fn line_comment_len(s: Seq<char>) -> int {
    if s.len() >= 2 && s[0] == '/' && s[1] == '/' {
        run_end(s, CharClass::WithinLine, 0)
    } else {
        0
    }
}

/// The index after the first `*/` of `s` that begins at or after `from`, or the length of `s`
/// where there is none.
pub open spec fn block_comment_end(s: Seq<char>, from: int) -> int
    decreases s.len() - from,
{
    if from < 0 || from + 1 >= s.len() {
        s.len() as int
    } else if s[from] == '*' && s[from + 1] == '/' {
        from + 2
    } else {
        block_comment_end(s, from + 1)
    }
}

/// The length of the block comment that `s` begins with: from `/*` through the first `*/`, or
/// to the end where it is not closed. Zero where `s` begins with none.
pub open spec fn block_comment_len(s: Seq<char>) -> int {
    if s.len() >= 2 && s[0] == '/' && s[1] == '*' {
        block_comment_end(s, 0)
    } else {
        0
    }
}

/// The length of a line comment and a block comment after it, either of which may be missing.
pub open spec fn comments_len(s: Seq<char>) -> int {
    let line = line_comment_len(s);
    line + block_comment_len(s.skip(line))
}

/// The length of everything skippable that `s` begins with: white space and comments, in any
/// number and order.
pub open spec fn ignorable_len(s: Seq<char>) -> nat
    decreases s.len(),
{
    let space = whitespace_len(s);
    if 0 <= space <= s.len() {
        let comments = comments_len(s.skip(space));
        if 0 < space + comments <= s.len() {
            (space + comments) as nat + ignorable_len(s.skip(space + comments))
        } else {
            0
        }
    } else {
        0
    }
}

/// One if `s` holds a sign at `at`, else zero.
pub open spec fn sign_len(s: Seq<char>, at: int) -> int {
    if 0 <= at < s.len() && (s[at] == '+' || s[at] == '-') {
        1
    } else {
        0
    }
}

/// The length of the longest decimal numeral that `s` begins with, zero where it begins with
/// none. A numeral is an optional sign, then digits with an optional `.` among or around them
/// (at least one digit in all), then optionally `e` or `E`, an optional sign and digits.
pub open spec fn numeral_len(s: Seq<char>) -> int {
    let sign = sign_len(s, 0);
    let whole_end = run_end(s, CharClass::Digit, sign);
    let mantissa_end = if whole_end < s.len() && s[whole_end] == '.' {
        run_end(s, CharClass::Digit, whole_end + 1)
    } else {
        whole_end
    };
    let digits = (whole_end - sign) + (if mantissa_end > whole_end {
        mantissa_end - whole_end - 1
    } else {
        0
    });
    if digits <= 0 {
        0
    } else if mantissa_end < s.len() && (s[mantissa_end] == 'e' || s[mantissa_end] == 'E') {
        let exponent_start = mantissa_end + 1 + sign_len(s, mantissa_end + 1);
        let exponent_end = run_end(s, CharClass::Digit, exponent_start);
        if exponent_end > exponent_start {
            exponent_end
        } else {
            mantissa_end
        }
    } else {
        mantissa_end
    }
}

/// Whether `t` is a decimal numeral, all of it.
pub open spec fn is_numeral(t: Seq<char>) -> bool {
    t.len() > 0 && numeral_len(t) == t.len()
}

/// What `numeral_len` gives is the longest numeral at the start of the text: the characters
/// that it counts are a numeral, and no longer run of characters from the start is one.
pub proof fn lemma_numeral_len_is_longest(s: Seq<char>, n: int)
    requires
        0 < n <= s.len(),
    ensures
        0 <= numeral_len(s) <= s.len(),
        n == numeral_len(s) ==> is_numeral(s.subrange(0, n)),
        n > numeral_len(s) ==> !is_numeral(s.subrange(0, n)),
{
    let prefix = s.subrange(0, n);
    let sign = sign_len(s, 0);
    assert(prefix[0] == s[0]);
    assert(sign_len(prefix, 0) == sign);
    let whole_end = run_end(s, CharClass::Digit, sign);
    lemma_run_end(s, CharClass::Digit, sign);
    lemma_run_end_prefix(s, CharClass::Digit, sign, n);
    let whole_end_in_prefix = run_end(prefix, CharClass::Digit, sign);
    if whole_end < s.len() && s[whole_end] == '.' {
        lemma_run_end(s, CharClass::Digit, whole_end + 1);
        if whole_end + 1 <= n {
            lemma_run_end_prefix(s, CharClass::Digit, whole_end + 1, n);
        }
    }
    let mantissa_end = if whole_end < s.len() && s[whole_end] == '.' {
        run_end(s, CharClass::Digit, whole_end + 1)
    } else {
        whole_end
    };
    if whole_end < n {
        assert(prefix[whole_end] == s[whole_end]);
    }
    if mantissa_end < s.len() && (s[mantissa_end] == 'e' || s[mantissa_end] == 'E') {
        let start = mantissa_end + 1 + sign_len(s, mantissa_end + 1);
        if start <= s.len() {
            lemma_run_end(s, CharClass::Digit, start);
        }
        if mantissa_end < n {
            assert(prefix[mantissa_end] == s[mantissa_end]);
            if mantissa_end + 1 < n {
                assert(prefix[mantissa_end + 1] == s[mantissa_end + 1]);
                assert(sign_len(prefix, mantissa_end + 1) == sign_len(s, mantissa_end + 1));
                if start <= n {
                    lemma_run_end_prefix(s, CharClass::Digit, start, n);
                }
            } else {
                assert(sign_len(prefix, mantissa_end + 1) == 0);
                lemma_run_end(prefix, CharClass::Digit, mantissa_end + 1);
            }
        }
    } else if mantissa_end < n {
        assert(prefix[mantissa_end] == s[mantissa_end]);
    }
}

/// The length of the string literal that `s` begins with, quotes included; zero where `s`
/// does not begin with a quote or the literal is not closed.
pub open spec fn string_len(s: Seq<char>) -> int {
    if s.len() > 0 && s[0] == '"' {
        let close = run_end(s, CharClass::WithinString, 1);
        if close < s.len() {
            close + 1
        } else {
            0
        }
    } else {
        0
    }
}

/// The length of the identifier that `s` begins with: the characters before the first
/// terminator. Zero where there is no terminator, or no character before it.
pub open spec fn ident_len(s: Seq<char>) -> int {
    let end = run_end(s, CharClass::WithinIdent, 0);
    if end < s.len() {
        end
    } else {
        0
    }
}

/// The punctuators, operators and keywords, in the order in which they are tried. An
/// operator of two characters stands before the operator that is its first character.
pub open spec fn keyword_table() -> Seq<(Seq<char>, ShallowTokenKind)> {
    seq![
        ("("@, ShallowTokenKind::LeftParen),
        (")"@, ShallowTokenKind::RightParen),
        ("{"@, ShallowTokenKind::LeftBrace),
        ("}"@, ShallowTokenKind::RightBrace),
        ("["@, ShallowTokenKind::LeftBracket),
        ("]"@, ShallowTokenKind::RightBracket),
        (","@, ShallowTokenKind::Comma),
        ("=="@, ShallowTokenKind::DoubleEquals),
        ("="@, ShallowTokenKind::Equals),
        ("+="@, ShallowTokenKind::AddEquals),
        ("-="@, ShallowTokenKind::SubtractEquals),
        ("*="@, ShallowTokenKind::MultiplyEquals),
        ("/="@, ShallowTokenKind::DivideEquals),
        (">"@, ShallowTokenKind::GreaterThan),
        ("<"@, ShallowTokenKind::LessThan),
        (":"@, ShallowTokenKind::Colon),
        (";"@, ShallowTokenKind::Semicolon),
        ("+"@, ShallowTokenKind::Plus),
        ("-"@, ShallowTokenKind::Minus),
        ("**"@, ShallowTokenKind::DoubleAsterisk),
        ("*"@, ShallowTokenKind::Asterisk),
        ("/"@, ShallowTokenKind::ForwardSlash),
        ("true"@, ShallowTokenKind::True),
        ("false"@, ShallowTokenKind::False),
        ("let"@, ShallowTokenKind::Let),
        ("fn"@, ShallowTokenKind::Fn),
        ("while"@, ShallowTokenKind::While),
        ("return"@, ShallowTokenKind::Return),
        ("break"@, ShallowTokenKind::Break),
        ("continue"@, ShallowTokenKind::Continue),
        ("if"@, ShallowTokenKind::If),
        ("else"@, ShallowTokenKind::Else),
    ]
}

/// No entry of the keyword table stands in the way of a later one: no text of the table
/// begins with a text that stands before it. So `==` is read as one operator and not as two.
pub proof fn lemma_keyword_table_order()
    ensures
        forall|i: int, j: int|
            0 <= i < j < keyword_table().len() ==> !starts_with(
                #[trigger] keyword_table()[j].0,
                #[trigger] keyword_table()[i].0,
            ),
{
    reveal_strlit("(");
    reveal_strlit(")");
    reveal_strlit("{");
    reveal_strlit("}");
    reveal_strlit("[");
    reveal_strlit("]");
    reveal_strlit(",");
    reveal_strlit("==");
    reveal_strlit("=");
    reveal_strlit("+=");
    reveal_strlit("-=");
    reveal_strlit("*=");
    reveal_strlit("/=");
    reveal_strlit(">");
    reveal_strlit("<");
    reveal_strlit(":");
    reveal_strlit(";");
    reveal_strlit("+");
    reveal_strlit("-");
    reveal_strlit("**");
    reveal_strlit("*");
    reveal_strlit("/");
    reveal_strlit("true");
    reveal_strlit("false");
    reveal_strlit("let");
    reveal_strlit("fn");
    reveal_strlit("while");
    reveal_strlit("return");
    reveal_strlit("break");
    reveal_strlit("continue");
    reveal_strlit("if");
    reveal_strlit("else");
    let table = keyword_table();
    assert forall|i: int, j: int| 0 <= i < j < table.len() implies !starts_with(
        #[trigger] table[j].0,
        #[trigger] table[i].0,
    ) by {
        let earlier = table[i].0;
        let later = table[j].0;
        if earlier.len() <= later.len() {
            if earlier[0] == later[0] {
                assert(earlier[1] != later[1]);
            }
        }
    }
}

/// The first entry of the keyword table, at or after `from`, whose text `s` begins with.
pub open spec fn keyword_from(s: Seq<char>, from: int) -> Option<int>
    decreases keyword_table().len() - from,
{
    if from < 0 || from >= keyword_table().len() {
        None
    } else if starts_with(s, keyword_table()[from].0) {
        Some(from)
    } else {
        keyword_from(s, from + 1)
    }
}

/// The kind and the length of the token that `s` begins with: a numeral, else a string
/// literal, else a punctuator, operator or keyword, else an identifier.
pub open spec fn token_at(s: Seq<char>) -> Option<(ShallowTokenKind, int)> {
    if numeral_len(s) > 0 {
        Some((ShallowTokenKind::Number, numeral_len(s)))
    } else if string_len(s) > 0 {
        Some((ShallowTokenKind::String, string_len(s)))
    } else if keyword_from(s, 0) is Some {
        let entry = keyword_table()[keyword_from(s, 0)->0];
        Some((entry.1, entry.0.len() as int))
    } else if ident_len(s) > 0 {
        Some((ShallowTokenKind::Ident, ident_len(s)))
    } else {
        None
    }
}

/// The text that a token of `kind` and of `length` characters at the start of `s` carries:
/// the numeral, the name, what stands between the quotes, or nothing.
pub open spec fn payload_at(s: Seq<char>, kind: ShallowTokenKind, length: int) -> Seq<char> {
    match kind {
        ShallowTokenKind::Number | ShallowTokenKind::Ident => s.subrange(0, length),
        ShallowTokenKind::String => s.subrange(1, length - 1),
        _ => Seq::empty(),
    }
}

/// The tokens of `s` from `cursor` on, or the index at which no token starts.
pub open spec fn tokens_from(s: Seq<char>, cursor: int) -> Result<Seq<TokenView>, Error>
    decreases s.len() - cursor,
{
    if cursor < 0 || cursor > s.len() {
        Ok(Seq::empty())
    } else {
        let start = cursor + ignorable_len(s.skip(cursor));
        if start >= s.len() {
            Ok(Seq::empty())
        } else {
            match token_at(s.skip(start)) {
                Some((kind, length)) => {
                    if 0 < length <= s.len() - start {
                        let token = TokenView {
                            start,
                            end: start + length,
                            kind,
                            text: payload_at(s.skip(start), kind, length),
                        };
                        match tokens_from(s, start + length) {
                            Ok(rest) => Ok(seq![token] + rest),
                            Err(e) => Err(e),
                        }
                    } else {
                        Err(Error { index: start as usize })
                    }
                },
                None => Err(Error { index: start as usize }),
            }
        }
    }
}

/// The source from `cursor` on, put together again: what was skipped in front of each token,
/// the text of the token, and what was skipped behind the last one.
pub open spec fn rebuilt(s: Seq<char>, cursor: int, tokens: Seq<TokenView>) -> Seq<char>
    decreases tokens.len(),
{
    if tokens.len() == 0 {
        s.subrange(cursor, s.len() as int)
    } else {
        s.subrange(cursor, tokens[0].start) + s.subrange(tokens[0].start, tokens[0].end) + rebuilt(
            s,
            tokens[0].end,
            tokens.drop_first(),
        )
    }
}

/// Whether `tokens` stand in `s` from `cursor` on as a lexer leaves them: in front of each
/// token lies exactly what can be skipped there, no token is empty or leaves the source, and
/// behind the last token everything can be skipped.
pub open spec fn well_placed(s: Seq<char>, cursor: int, tokens: Seq<TokenView>) -> bool
    decreases tokens.len(),
{
    if tokens.len() == 0 {
        cursor + ignorable_len(s.skip(cursor)) == s.len()
    } else {
        &&& tokens[0].start == cursor + ignorable_len(s.skip(cursor))
        &&& tokens[0].start < tokens[0].end <= s.len()
        &&& well_placed(s, tokens[0].end, tokens.drop_first())
    }
}

/// What can be skipped at the start of a text is no longer than the text.
pub proof fn lemma_ignorable_len(s: Seq<char>)
    ensures
        ignorable_len(s) <= s.len(),
    decreases s.len(),
{
    let space = whitespace_len(s);
    if 0 <= space <= s.len() {
        let comments = comments_len(s.skip(space));
        if 0 < space + comments <= s.len() {
            lemma_ignorable_len(s.skip(space + comments));
        }
    }
}

/// The tokens of a source and what was skipped between them make up the source: nothing is
/// lost and nothing is read twice.
pub proof fn lemma_tokens_cover_source(s: Seq<char>, cursor: int)
    requires
        0 <= cursor <= s.len(),
        tokens_from(s, cursor) is Ok,
    ensures
        well_placed(s, cursor, tokens_from(s, cursor)->Ok_0),
        rebuilt(s, cursor, tokens_from(s, cursor)->Ok_0) == s.subrange(cursor, s.len() as int),
    decreases s.len() - cursor,
{
    lemma_ignorable_len(s.skip(cursor));
    let start = cursor + ignorable_len(s.skip(cursor));
    let tokens = tokens_from(s, cursor)->Ok_0;
    if start < s.len() {
        let (kind, length) = token_at(s.skip(start))->0;
        let rest = tokens_from(s, start + length)->Ok_0;
        lemma_tokens_cover_source(s, start + length);
        assert(tokens.drop_first() =~= rest);
        assert(s.subrange(cursor, start) + s.subrange(start, start + length) + s.subrange(
            start + length,
            s.len() as int,
        ) =~= s.subrange(cursor, s.len() as int));
    }
}

/// The views of `tokens`, in order.
pub open spec fn token_views(tokens: Seq<Token>) -> Seq<TokenView> {
    tokens.map_values(|t: Token| t@)
}

/// Find the first character after the white space that `source` begins with.
pub fn lex_whitespace(source: &[char]) -> (next_index: usize)
    ensures
        next_index as int == whitespace_len(source@),
        next_index <= source@.len(),
{
    scan_run(source, CharClass::Whitespace, 0)
}

/// Find the first character after the line comment that `source` begins with.
pub fn lex_line_comment(source: &[char]) -> (next_index: usize)
    ensures
        next_index as int == line_comment_len(source@),
        next_index <= source@.len(),
{
    if source.len() >= 2 && source[0] == '/' && source[1] == '/' {
        scan_run(source, CharClass::WithinLine, 0)
    } else {
        0
    }
}

/// Find the first character after the block comment that `source` begins with.
pub fn lex_block_comment(source: &[char]) -> (next_index: usize)
    ensures
        next_index as int == block_comment_len(source@),
        next_index <= source@.len(),
{
    if source.len() >= 2 && source[0] == '/' && source[1] == '*' {
        let mut index: usize = 0;
        while index < source.len() - 1
            invariant
                source@.len() >= 2,
                source@[0] == '/',
                source@[1] == '*',
                index <= source@.len(),
                block_comment_end(source@, 0) == block_comment_end(source@, index as int),
            decreases source@.len() - index,
        {
            if source[index] == '*' && source[index + 1] == '/' {
                return index + 2;
            }
            index += 1;
        }
        source.len()
    } else {
        0
    }
}

/// Find the first character after a line comment and a block comment behind it.
pub fn lex_comments(source: &[char]) -> (next_index: usize)
    ensures
        next_index as int == comments_len(source@),
        next_index <= source@.len(),
{
    let line = lex_line_comment(source);
    let rest = vstd::slice::slice_subrange(source, line, source.len());
    lex_block_comment(rest) + line
}

/// Find the first character after everything that can be skipped: white space and comments.
pub fn lex_ignorables(source: &[char]) -> (next_index: usize)
    ensures
        next_index as int == ignorable_len(source@),
        next_index <= source@.len(),
{
    let mut cursor: usize = 0;
    let mut stable = false;
    assert(source@.skip(0) =~= source@);
    while !stable
        invariant
            cursor <= source@.len(),
            ignorable_len(source@) == cursor + ignorable_len(source@.skip(cursor as int)),
            stable ==> ignorable_len(source@.skip(cursor as int)) == 0,
        decreases source@.len() - cursor + (if stable { 0int } else { 1int }),
    {
        let rest = vstd::slice::slice_subrange(source, cursor, source.len());
        let space = lex_whitespace(rest);
        let after_space = vstd::slice::slice_subrange(rest, space, rest.len());
        let comments = lex_comments(after_space);
        if space + comments == 0 {
            stable = true;
        } else {
            assert(source@.skip(cursor as int).skip(space + comments) =~= source@.skip(
                cursor + space + comments,
            ));
            cursor += space + comments;
        }
    }
    cursor
}

/// Lexes the longest decimal numeral that `source` begins with.
pub fn lex_number(source: &[char]) -> (found: Option<FoundToken>)
    ensures
        match found {
            Some(ft) => {
                &&& 0 < ft.next_index <= source@.len()
                &&& ft.next_index as int == numeral_len(source@)
                &&& ft.token.shallow() == ShallowTokenKind::Number
                &&& ft.token.text() == source@.subrange(0, numeral_len(source@))
            },
            None => numeral_len(source@) <= 0,
        },
{
    let length = source.len();
    let sign: usize = if length > 0 && (source[0] == '+' || source[0] == '-') {
        1
    } else {
        0
    };
    let whole_end = scan_run(source, CharClass::Digit, sign);
    let mantissa_end = if whole_end < length && source[whole_end] == '.' {
        scan_run(source, CharClass::Digit, whole_end + 1)
    } else {
        whole_end
    };
    let digits = (whole_end - sign) + (if mantissa_end > whole_end {
        mantissa_end - whole_end - 1
    } else {
        0
    });
    if digits == 0 {
        return None;
    }
    let mut end = mantissa_end;
    if mantissa_end < length && (source[mantissa_end] == 'e' || source[mantissa_end] == 'E') {
        let after_e = mantissa_end + 1;
        let exponent_start = if after_e < length && (source[after_e] == '+' || source[after_e]
            == '-') {
            after_e + 1
        } else {
            after_e
        };
        let exponent_end = scan_run(source, CharClass::Digit, exponent_start);
        if exponent_end > exponent_start {
            end = exponent_end;
        }
    }
    Some(FoundToken { next_index: end, token: TokenKind::Number(string_from_chars(source, 0, end)) })
}

/// Lexes the identifier that `source` begins with: the characters before the first terminator.
pub fn lex_ident(source: &[char]) -> (found: Option<FoundToken>)
    ensures
        match found {
            Some(ft) => {
                &&& 0 < ft.next_index < source@.len()
                &&& ft.next_index as int == ident_len(source@)
                &&& ft.token.shallow() == ShallowTokenKind::Ident
                &&& ft.token.text() == source@.subrange(0, ident_len(source@))
            },
            None => ident_len(source@) <= 0,
        },
{
    let end = scan_run(source, CharClass::WithinIdent, 0);
    if end < source.len() && end > 0 {
        Some(FoundToken { next_index: end, token: TokenKind::Ident(string_from_chars(source, 0, end)) })
    } else {
        None
    }
}

/// Lexes the string literal that `source` begins with. There are no escape sequences: the
/// next double quote closes the literal.
pub fn lex_string(source: &[char]) -> (found: Option<FoundToken>)
    ensures
        match found {
            Some(ft) => {
                &&& 2 <= ft.next_index <= source@.len()
                &&& ft.next_index as int == string_len(source@)
                &&& ft.token.shallow() == ShallowTokenKind::String
                &&& ft.token.text() == source@.subrange(1, string_len(source@) - 1)
            },
            None => string_len(source@) <= 0,
        },
{
    if source.len() == 0 || source[0] != '"' {
        return None;
    }
    let close = scan_run(source, CharClass::WithinString, 1);
    if close < source.len() {
        Some(
            FoundToken {
                next_index: close + 1,
                token: TokenKind::String(string_from_chars(source, 1, close)),
            },
        )
    } else {
        None
    }
}

/// Lexes `token` where `source` begins with the characters `cs`.
pub fn lex_characters(source: &[char], cs: &str, token: TokenKind) -> (found: Option<FoundToken>)
    ensures
        match found {
            Some(ft) => {
                &&& starts_with(source@, cs@)
                &&& ft.next_index as int == cs@.len()
                &&& ft.token == token
            },
            None => !starts_with(source@, cs@),
        },
{
    let length = cs.unicode_len();
    if length > source.len() {
        return None;
    }
    let mut index: usize = 0;
    while index < length
        invariant
            length == cs@.len(),
            length <= source@.len(),
            index <= length,
            forall|i: int| 0 <= i < index ==> source@[i] == cs@[i],
        decreases length - index,
    {
        if source[index] != cs.get_char(index) {
            return None;
        }
        index += 1;
    }
    Some(FoundToken { next_index: length, token })
}

/// The number of entries of the keyword table.
pub const KEYWORD_COUNT: usize = 32;

/// The entry `index` of the keyword table.
pub fn keyword(index: usize) -> (entry: (&'static str, ShallowTokenKind))
    requires
        index < KEYWORD_COUNT,
    ensures
        keyword_table().len() == KEYWORD_COUNT,
        (entry.0@, entry.1) == keyword_table()[index as int],
        entry.0@.len() > 0,
        entry.1.payload_free(),
{
    proof {
        reveal_strlit("(");
        reveal_strlit(")");
        reveal_strlit("{");
        reveal_strlit("}");
        reveal_strlit("[");
        reveal_strlit("]");
        reveal_strlit(",");
        reveal_strlit("==");
        reveal_strlit("=");
        reveal_strlit("+=");
        reveal_strlit("-=");
        reveal_strlit("*=");
        reveal_strlit("/=");
        reveal_strlit(">");
        reveal_strlit("<");
        reveal_strlit(":");
        reveal_strlit(";");
        reveal_strlit("+");
        reveal_strlit("-");
        reveal_strlit("**");
        reveal_strlit("*");
        reveal_strlit("/");
        reveal_strlit("true");
        reveal_strlit("false");
        reveal_strlit("let");
        reveal_strlit("fn");
        reveal_strlit("while");
        reveal_strlit("return");
        reveal_strlit("break");
        reveal_strlit("continue");
        reveal_strlit("if");
        reveal_strlit("else");
    }
    match index {
        0 => ("(", ShallowTokenKind::LeftParen),
        1 => (")", ShallowTokenKind::RightParen),
        2 => ("{", ShallowTokenKind::LeftBrace),
        3 => ("}", ShallowTokenKind::RightBrace),
        4 => ("[", ShallowTokenKind::LeftBracket),
        5 => ("]", ShallowTokenKind::RightBracket),
        6 => (",", ShallowTokenKind::Comma),
        7 => ("==", ShallowTokenKind::DoubleEquals),
        8 => ("=", ShallowTokenKind::Equals),
        9 => ("+=", ShallowTokenKind::AddEquals),
        10 => ("-=", ShallowTokenKind::SubtractEquals),
        11 => ("*=", ShallowTokenKind::MultiplyEquals),
        12 => ("/=", ShallowTokenKind::DivideEquals),
        13 => (">", ShallowTokenKind::GreaterThan),
        14 => ("<", ShallowTokenKind::LessThan),
        15 => (":", ShallowTokenKind::Colon),
        16 => (";", ShallowTokenKind::Semicolon),
        17 => ("+", ShallowTokenKind::Plus),
        18 => ("-", ShallowTokenKind::Minus),
        19 => ("**", ShallowTokenKind::DoubleAsterisk),
        20 => ("*", ShallowTokenKind::Asterisk),
        21 => ("/", ShallowTokenKind::ForwardSlash),
        22 => ("true", ShallowTokenKind::True),
        23 => ("false", ShallowTokenKind::False),
        24 => ("let", ShallowTokenKind::Let),
        25 => ("fn", ShallowTokenKind::Fn),
        26 => ("while", ShallowTokenKind::While),
        27 => ("return", ShallowTokenKind::Return),
        28 => ("break", ShallowTokenKind::Break),
        29 => ("continue", ShallowTokenKind::Continue),
        30 => ("if", ShallowTokenKind::If),
        _ => ("else", ShallowTokenKind::Else),
    }
}

/// Lexes the first punctuator, operator or keyword of the table that `source` begins with.
pub fn lex_keyword(source: &[char]) -> (found: Option<FoundToken>)
    ensures
        match keyword_from(source@, 0) {
            Some(i) => found matches Some(ft) && ft.next_index as int == keyword_table()[i].0.len()
                && 0 < ft.next_index <= source@.len() && ft.token.shallow() == keyword_table()[i].1
                && ft.token.text() == Seq::<char>::empty() && keyword_table()[i].1.payload_free(),
            None => found is None,
        },
{
    let mut index: usize = 0;
    while index < KEYWORD_COUNT
        invariant
            index <= KEYWORD_COUNT,
            keyword_table().len() == KEYWORD_COUNT,
            keyword_from(source@, 0) == keyword_from(source@, index as int),
        decreases KEYWORD_COUNT - index,
    {
        let (text, kind) = keyword(index);
        assert(keyword_table()[index as int].0 == text@);
        if let Some(ft) = lex_characters(source, text, kind.bare()) {
            assert(keyword_from(source@, index as int) == Some(index as int));
            return Some(ft);
        }
        index += 1;
    }
    None
}

/// Runs all lexers over `source`, returning the first success: a numeral, a string literal,
/// a punctuator, operator or keyword, an identifier.
pub fn lex_token(source: &[char]) -> (found: Option<FoundToken>)
    ensures
        match token_at(source@) {
            Some((kind, length)) => found matches Some(ft) && ft.next_index as int == length && 0
                < ft.next_index <= source@.len() && ft.token.shallow() == kind && ft.token.text()
                == payload_at(source@, kind, length),
            None => found is None,
        },
{
    if let Some(ft) = lex_number(source) {
        return Some(ft);
    }
    if let Some(ft) = lex_string(source) {
        return Some(ft);
    }
    if let Some(ft) = lex_keyword(source) {
        return Some(ft);
    }
    proof {
        lemma_run_end(source@, CharClass::WithinIdent, 0);
    }
    lex_ident(source)
}

/// Lex all tokens, if possible.
pub fn lex_to_end(source: &[char]) -> (tokens: Result<Vec<Token>, Error>)
    ensures
        match tokens {
            Ok(tokens) => tokens_from(source@, 0) == Ok::<Seq<TokenView>, Error>(token_views(tokens@)),
            Err(e) => tokens_from(source@, 0) == Err::<Seq<TokenView>, Error>(e),
        },
{
    let mut cursor: usize = 0;
    let mut tokens: Vec<Token> = Vec::new();
    loop
        invariant
            cursor <= source@.len(),
            match tokens_from(source@, cursor as int) {
                Ok(rest) => tokens_from(source@, 0) == Ok::<Seq<TokenView>, Error>(
                    token_views(tokens@) + rest,
                ),
                Err(e) => tokens_from(source@, 0) == Err::<Seq<TokenView>, Error>(e),
            },
        decreases source@.len() - cursor,
    {
        let rest = vstd::slice::slice_subrange(source, cursor, source.len());
        let start = cursor + lex_ignorables(rest);
        if start == source.len() {
            assert(token_views(tokens@) + Seq::<TokenView>::empty() =~= token_views(tokens@));
            return Ok(tokens);
        }
        let rest = vstd::slice::slice_subrange(source, start, source.len());
        match lex_token(rest) {
            Some(FoundToken { token, next_index }) => {
                let ghost before = token_views(tokens@);
                let found = Token { span: Span::new(start, start + next_index), kind: token };
                tokens.push(found);
                proof {
                    assert(token_views(tokens@) =~= before.push(found@));
                    let after = tokens_from(source@, start + next_index);
                    if after is Ok {
                        assert(before + (seq![found@] + after->Ok_0) =~= before.push(found@)
                            + after->Ok_0);
                    }
                }
                cursor = start + next_index;
            },
            None => {
                return Err(Error { index: start });
            },
        }
    }
}

} // verus!
