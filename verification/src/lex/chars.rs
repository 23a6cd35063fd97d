//! Character classes and runs of characters: what the scanners are stated over.

use vstd::prelude::*;

verus! {

/// The code points with the Unicode property `White_Space`.
pub open spec fn is_whitespace_char(c: char) -> bool {
    ||| c == '\u{9}'
    ||| c == '\u{A}'
    ||| c == '\u{B}'
    ||| c == '\u{C}'
    ||| c == '\u{D}'
    ||| c == ' '
    ||| c == '\u{85}'
    ||| c == '\u{A0}'
    ||| c == '\u{1680}'
    ||| ('\u{2000}' <= c && c <= '\u{200A}')
    ||| c == '\u{2028}'
    ||| c == '\u{2029}'
    ||| c == '\u{202F}'
    ||| c == '\u{205F}'
    ||| c == '\u{3000}'
}

/// The characters that end an identifier: white space and `(){},;:[]`.
pub open spec fn is_ident_terminator_char(c: char) -> bool {
    ||| is_whitespace_char(c)
    ||| c == '('
    ||| c == ')'
    ||| c == '{'
    ||| c == '}'
    ||| c == ','
    ||| c == ';'
    ||| c == ':'
    ||| c == '['
    ||| c == ']'
}

pub open spec fn is_digit_char(c: char) -> bool {
    '0' <= c && c <= '9'
}

/// The classes of characters that a run is made of.
#[derive(Debug, Clone, Copy, PartialEq, Eq, Structural)]
pub enum CharClass {
    Whitespace,
    Digit,
    /// Anything but a line feed.
    WithinLine,
    /// Anything but a double quote.
    WithinString,
    /// Anything but an identifier terminator.
    WithinIdent,
}

impl CharClass {
    pub open spec fn holds(self, c: char) -> bool {
        match self {
            CharClass::Whitespace => is_whitespace_char(c),
            CharClass::Digit => is_digit_char(c),
            CharClass::WithinLine => c != '\n',
            CharClass::WithinString => c != '"',
            CharClass::WithinIdent => !is_ident_terminator_char(c),
        }
    }

    #[verifier::when_used_as_spec(holds)]
    pub fn contains(self, c: char) -> (b: bool)
        ensures
            b == self.holds(c),
    {
        match self {
            CharClass::Whitespace => is_whitespace(c),
            CharClass::Digit => '0' <= c && c <= '9',
            CharClass::WithinLine => c != '\n',
            CharClass::WithinString => c != '"',
            CharClass::WithinIdent => !is_ident_terminator(c),
        }
    }
}

/// Where the run of characters of `class` that starts at `from` ends: the first index at or
/// after `from` that holds a character outside the class, or the length of `s`.
pub open spec fn run_end(s: Seq<char>, class: CharClass, from: int) -> int
    decreases s.len() - from,
{
    if 0 <= from < s.len() && class.holds(s[from]) {
        run_end(s, class, from + 1)
    } else {
        from
    }
}

/// A run ends where the definition says: within bounds, after characters of the class only,
/// and before a character outside it.
pub proof fn lemma_run_end(s: Seq<char>, class: CharClass, from: int)
    requires
        0 <= from <= s.len(),
    ensures
        from <= run_end(s, class, from) <= s.len(),
        forall|i: int| from <= i < run_end(s, class, from) ==> class.holds(#[trigger] s[i]),
        run_end(s, class, from) < s.len() ==> !class.holds(s[run_end(s, class, from)]),
    decreases s.len() - from,
{
    if from < s.len() && class.holds(s[from]) {
        lemma_run_end(s, class, from + 1);
    }
}

/// A run in the first `n` characters ends where it ends in the whole text, or at `n`.
pub proof fn lemma_run_end_prefix(s: Seq<char>, class: CharClass, from: int, n: int)
    requires
        0 <= from <= n <= s.len(),
    ensures
        run_end(s.subrange(0, n), class, from) == if run_end(s, class, from) <= n {
            run_end(s, class, from)
        } else {
            n
        },
    decreases n - from,
{
    let prefix = s.subrange(0, n);
    if from < n {
        assert(prefix[from] == s[from]);
        if class.holds(s[from]) {
            lemma_run_end_prefix(s, class, from + 1, n);
        }
    } else {
        lemma_run_end(s, class, from);
    }
}

pub fn is_whitespace(c: char) -> (b: bool)
    ensures
        b == is_whitespace_char(c),
{
    c == '\u{9}' || c == '\u{A}' || c == '\u{B}' || c == '\u{C}' || c == '\u{D}' || c == ' '
        || c == '\u{85}' || c == '\u{A0}' || c == '\u{1680}' || ('\u{2000}' <= c && c
        <= '\u{200A}') || c == '\u{2028}' || c == '\u{2029}' || c == '\u{202F}' || c
        == '\u{205F}' || c == '\u{3000}'
}

pub fn is_ident_terminator(c: char) -> (b: bool)
    ensures
        b == is_ident_terminator_char(c),
{
    is_whitespace(c) || c == '(' || c == ')' || c == '{' || c == '}' || c == ',' || c == ';'
        || c == ':' || c == '[' || c == ']'
}

/// Scans the run of characters of `class` that starts at `from`.
pub fn scan_run(source: &[char], class: CharClass, from: usize) -> (end: usize)
    requires
        from <= source@.len(),
    ensures
        end as int == run_end(source@, class, from as int),
        from <= end <= source@.len(),
{
    let mut index: usize = from;
    while index < source.len() && class.contains(source[index])
        invariant
            from <= index <= source@.len(),
            run_end(source@, class, from as int) == run_end(source@, class, index as int),
        decreases source@.len() - index,
    {
        index += 1;
    }
    index
}

} // verus!
