//! Where in a source text a character stands.

use vstd::prelude::*;
use crate::lex::chars::{lemma_run_end, run_end, scan_run, CharClass};
use crate::text::{chars_of, string_from_chars};

verus! {

/// The number of line feeds among the first `index` characters of `s`.
pub open spec fn line_feeds_before(s: Seq<char>, index: int) -> int
    decreases index,
{
    if index <= 0 || index > s.len() {
        0
    } else {
        line_feeds_before(s, index - 1) + if s[index - 1] == '\n' {
            1int
        } else {
            0int
        }
    }
}

/// The index at which the line of the character `index` starts: behind the last line feed in
/// front of the character, or at the start of the text.
pub open spec fn line_start(s: Seq<char>, index: int) -> int
    decreases index,
{
    if index <= 0 || index > s.len() {
        0
    } else if s[index - 1] == '\n' {
        index
    } else {
        line_start(s, index - 1)
    }
}

/// The line and the column of the character `index` of `s`, both counted from one. A line
/// feed ends its line and stands in none; there is no character at or behind the end.
pub open spec fn line_col(s: Seq<char>, index: int) -> Option<(int, int)> {
    if 0 <= index < s.len() && s[index] != '\n' {
        Some((line_feeds_before(s, index) + 1, index - line_start(s, index) + 1))
    } else {
        None
    }
}

/// Computes the line and the column that an index is at in source code.
/// Returns `None` if the index is outside the source, or is the index of a line feed.
pub fn line_col_from_index(index: usize, source: &str) -> (place: Option<(usize, usize)>)
    ensures
        match place {
            Some((line, col)) => line_col(source@, index as int) == Some((line as int, col as int)),
            None => line_col(source@, index as int) is None,
        },
{
    let chars = chars_of(source);
    if index >= chars.len() || chars[index] == '\n' {
        return None;
    }
    let mut feeds: usize = 0;
    let mut start: usize = 0;
    let mut at: usize = 0;
    while at < index
        invariant
            at <= index < chars@.len(),
            chars@ == source@,
            feeds <= at,
            start <= at,
            feeds as int == line_feeds_before(source@, at as int),
            start as int == line_start(source@, at as int),
        decreases index - at,
    {
        if chars[at] == '\n' {
            feeds += 1;
            start = at + 1;
        }
        at += 1;
    }
    Some((feeds + 1, index - start + 1))
}

/// A line of an excerpt of a source text.
#[derive(Debug)]
pub enum ExcerptLine {
    /// An empty line in front of the excerpt, of which only the margin is drawn.
    Margin,
    /// A line of the source, with its number, counted from one.
    Source { number: usize, text: String },
    /// The marks under the part that is meant: `offset` blanks, then `length` marks.
    Marks { offset: usize, length: usize },
}

/// The index at which the line `line` of `s`, counted from one, begins. It lies behind the
/// end of `s` where `s` has no such line.
pub open spec fn line_begin(s: Seq<char>, line: int) -> int
    decreases line,
{
    if line <= 1 {
        0
    } else {
        let before = line_begin(s, line - 1);
        if 0 <= before <= s.len() {
            run_end(s, CharClass::WithinLine, before) + 1
        } else {
            before
        }
    }
}

/// The characters of the line that begins at `begin`, without its line feed.
pub open spec fn line_at(s: Seq<char>, begin: int) -> Seq<char> {
    s.subrange(begin, run_end(s, CharClass::WithinLine, begin))
}

/// Whether `line` shows the line `number` of `s`: it carries the number and the characters.
pub open spec fn shows_line(s: Seq<char>, number: int, line: ExcerptLine) -> bool {
    match line {
        ExcerptLine::Source { number: n, text } => {
            &&& n == number
            &&& 0 <= line_begin(s, number) <= s.len()
            &&& text@ == line_at(s, line_begin(s, number))
        },
        _ => false,
    }
}

/// Whether `lines` show lines of `s` from the line `from` on, one after the other and none
/// behind the line `to`.
pub open spec fn shows_lines(s: Seq<char>, from: int, to: int, lines: Seq<ExcerptLine>) -> bool {
    forall|i: int|
        0 <= i < lines.len() ==> from + i <= to && shows_line(s, from + i, #[trigger] lines[i])
}

/// Behind a line that a text does not have it has no line.
pub proof fn lemma_no_line_behind(s: Seq<char>, line: int, later: int)
    requires
        line_begin(s, line) > s.len(),
        line <= later,
    ensures
        line_begin(s, later) > s.len(),
    decreases later - line,
{
    if line < later {
        lemma_no_line_behind(s, line, later - 1);
    }
}

/// Lays out an excerpt of `source`: a margin line where a line stands in front of the
/// excerpt, the lines `start_line` to `end_line`, both counted from one, as far as the source
/// has them, and the marks under the columns `start_col` up to but without `end_col`.
pub fn excerpt(
    source: &str,
    start_line: usize,
    end_line: usize,
    start_col: usize,
    end_col: usize,
) -> (lines: Vec<ExcerptLine>)
    requires
        1 <= start_line,
    ensures
        lines@.len() >= 1,
        lines@.last() == (ExcerptLine::Marks {
            offset: if start_col >= 1 {
                (start_col - 1) as usize
            } else {
                0usize
            },
            length: if end_col >= start_col {
                (end_col - start_col) as usize
            } else {
                0usize
            },
        }),
        start_line > 1 ==> lines@[0] == ExcerptLine::Margin && shows_lines(
            source@,
            start_line as int,
            end_line as int,
            lines@.subrange(1, lines@.len() - 1),
        ),
        start_line == 1 ==> shows_lines(
            source@,
            1,
            end_line as int,
            lines@.subrange(0, lines@.len() - 1),
        ),
        forall|n: int|
            start_line <= n <= end_line && n < usize::MAX && 0 <= #[trigger] line_begin(source@, n)
                <= source@.len() ==> n - start_line + (if start_line > 1 {
                1int
            } else {
                0int
            }) < lines@.len() - 1,
{
    let chars = chars_of(source);
    let mut lines: Vec<ExcerptLine> = Vec::new();
    if start_line > 1 {
        lines.push(ExcerptLine::Margin);
    }
    let lead = lines.len();
    let mut number: usize = 1;
    let mut begin: usize = 0;
    let mut more = true;
    while more && number <= end_line
        invariant
            chars@ == source@,
            1 <= number,
            1 <= start_line,
            lead <= 1,
            lead == 1 ==> lines@.len() >= 1 && lines@[0] == ExcerptLine::Margin,
            lead <= lines@.len(),
            more ==> begin <= chars@.len() && begin as int == line_begin(source@, number as int),
            more ==> lines@.len() == lead + (if number > start_line {
                number - start_line
            } else {
                0
            }),
            lead == (if start_line > 1 {
                1int
            } else {
                0int
            }),
            !more ==> forall|n: int|
                start_line <= n <= end_line && n < usize::MAX && 0 <= #[trigger] line_begin(
                    source@,
                    n,
                ) <= source@.len() ==> n - start_line < lines@.len() - lead,
            shows_lines(
                source@,
                start_line as int,
                end_line as int,
                lines@.subrange(lead as int, lines@.len() as int),
            ),
        decreases chars@.len() + 1 - begin + (if more { 1int } else { 0int }),
    {
        proof {
            lemma_run_end(source@, CharClass::WithinLine, begin as int);
        }
        let end = scan_run(chars.as_slice(), CharClass::WithinLine, begin);
        if number >= start_line {
            let ghost earlier = lines@;
            let text = string_from_chars(chars.as_slice(), begin, end);
            lines.push(ExcerptLine::Source { number, text });
            proof {
                let shown = lines@.subrange(lead as int, lines@.len() as int);
                assert forall|i: int| 0 <= i < shown.len() implies start_line + i <= end_line
                    && shows_line(source@, start_line + i, #[trigger] shown[i]) by {
                    if i < shown.len() - 1 {
                        assert(shown[i] == earlier.subrange(lead as int, earlier.len() as int)[i]);
                    }
                }
            }
        } else {
            assert(lines@.subrange(lead as int, lines@.len() as int) =~= Seq::<ExcerptLine>::empty());
        }
        if end < chars.len() && number < usize::MAX {
            number += 1;
            begin = end + 1;
        } else {
            more = false;
            proof {
                assert forall|n: int|
                    start_line <= n <= end_line && n < usize::MAX && 0 <= #[trigger] line_begin(
                        source@,
                        n,
                    ) <= source@.len() implies n - start_line < lines@.len() - lead by {
                    if n > number {
                        assert(line_begin(source@, number + 1) > source@.len());
                        lemma_no_line_behind(source@, number + 1, n);
                    }
                }
            }
        }
    }
    let offset = if start_col >= 1 {
        start_col - 1
    } else {
        0
    };
    let length = if end_col >= start_col {
        end_col - start_col
    } else {
        0
    };
    let ghost shown = lines@;
    lines.push(ExcerptLine::Marks { offset, length });
    proof {
        assert(lines@.subrange(lead as int, lines@.len() - 1) =~= shown.subrange(
            lead as int,
            shown.len() as int,
        ));
    }
    lines
}

} // verus!
