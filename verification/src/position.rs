//! The bridge between the front end's line and column, counted in
//! characters from one, and the editor's positions, counted in UTF-16 code
//! units from zero.

use crate::text::{
    chars_of, clamp_u32, lemma_utf16_units_concat, line_bounds, line_of, raw_line_bounds,
    raw_line_of, saturating_sum, string_of, utf16_units, utf16_width,
};
use vstd::prelude::*;

verus! {

/// A place in a document as the editor names it: both numbers count from
/// zero, and `character` is an offset within the line.
#[derive(Clone, Copy, Debug, PartialEq, Eq, Structural)]
pub struct Position {
    pub line: u32,
    pub character: u32,
}

/// What the front end tells of a token: its line and its column, both
/// counted from one, the column in characters, and its text.
#[derive(Debug)]
pub struct Token {
    pub line: usize,
    pub column: usize,
    pub value: String,
}

impl Token {
    /// The line and the column count from one.
    pub open spec fn wf(&self) -> bool {
        self.line >= 1 && self.column >= 1
    }
}

/// The first `n` characters of `s`, or all of `s` where it is shorter.
pub open spec fn leading(s: Seq<char>, n: nat) -> Seq<char> {
    if n <= s.len() {
        s.take(n as int)
    } else {
        s
    }
}

/// The UTF-16 column at which a token begins: the width of the characters
/// that precede it on its line.
pub open spec fn token_start(text: Seq<char>, line: nat, column: nat) -> nat
    recommends
        line >= 1,
        column >= 1,
{
    utf16_units(leading(line_of(text, (line - 1) as nat), (column - 1) as nat))
}

/// The UTF-16 column just behind a token.
pub open spec fn token_end(text: Seq<char>, line: nat, column: nat, value: Seq<char>) -> nat
    recommends
        line >= 1,
        column >= 1,
{
    token_start(text, line, column) + utf16_units(value)
}

/// A token's columns depend on the characters before it only through their
/// UTF-16 width: where `before` is what precedes the token on its line, the
/// token begins at the width of `before` and ends at the width of `before`
/// followed by the token's text, however many bytes or code units each
/// character of `before` takes.
pub proof fn lemma_token_columns(
    text: Seq<char>,
    line: nat,
    column: nat,
    value: Seq<char>,
    before: Seq<char>,
    after: Seq<char>,
)
    requires
        line >= 1,
        column >= 1,
        line_of(text, (line - 1) as nat) == before + after,
        before.len() == column - 1,
    ensures
        token_start(text, line, column) == utf16_units(before),
        token_end(text, line, column, value) == utf16_units(before + value),
{
    assert(leading(before + after, (column - 1) as nat) =~= before);
    lemma_utf16_units_concat(before, value);
}

/// The UTF-16 columns at which `token` begins and ends in `text`, each
/// saturating at `u32::MAX`.
pub fn calc_token_pos(text: &str, token: &Token) -> (span: (u32, u32))
    requires
        token.wf(),
    ensures
        span.0 == clamp_u32(token_start(text@, token.line as nat, token.column as nat)),
        span.1 == clamp_u32(
            token_end(text@, token.line as nat, token.column as nat, token.value@),
        ),
{
    let v = chars_of(text);
    let (from, to) = line_bounds(&v, token.line - 1);
    let want: usize = token.column - 1;
    let stop: usize = if want <= to - from {
        from + want
    } else {
        to
    };
    assert(v@.subrange(from as int, stop as int) =~= leading(
        v@.subrange(from as int, to as int),
        want as nat,
    ));
    let start = utf16_width(&v, from, stop);
    let value = chars_of(token.value.as_str());
    let width = utf16_width(&value, 0, value.len());
    assert(value@.subrange(0, value.len() as int) =~= value@);
    (start, saturating_sum(start, width))
}

/// Whether `c` is alphanumeric, as `char::is_alphanumeric` tells it.
pub uninterp spec fn alphanumeric(c: char) -> bool;

/// `char::is_alphanumeric`: whether the character is a letter or a digit in
/// Unicode's sense. The answer depends on the character alone.
pub assume_specification[ char::is_alphanumeric ](c: char) -> (b: bool)
    ensures
        b == alphanumeric(c),
;

/// Whether `c` can stand in an identifier: an alphanumeric character or an
/// underscore.
pub open spec fn is_word_char(c: char) -> bool {
    alphanumeric(c) || c == '_'
}

/// The length of the longest run of identifier characters that ends `s`.
pub open spec fn trailing_word_len(s: Seq<char>) -> nat
    decreases s.len(),
{
    if s.len() == 0 || !is_word_char(s.last()) {
        0
    } else {
        1 + trailing_word_len(s.drop_last())
    }
}

/// The run of identifier characters that ends `s`.
pub open spec fn trailing_word(s: Seq<char>) -> Seq<char> {
    s.skip(s.len() - trailing_word_len(s))
}

/// The trailing word is a suffix of identifier characters that cannot be
/// extended to the left.
pub proof fn lemma_trailing_word_maximal(s: Seq<char>)
    ensures
        trailing_word_len(s) <= s.len(),
        forall|i: int|
            s.len() - trailing_word_len(s) <= i < s.len() ==> is_word_char(#[trigger] s[i]),
        trailing_word_len(s) < s.len() ==> !is_word_char(s[s.len() - trailing_word_len(s) - 1]),
    decreases s.len(),
{
    if s.len() > 0 && is_word_char(s.last()) {
        let init = s.drop_last();
        lemma_trailing_word_maximal(init);
        assert forall|i: int| s.len() - trailing_word_len(s) <= i < s.len() implies is_word_char(
            #[trigger] s[i],
        ) by {
            if i < s.len() - 1 {
                assert(s[i] == init[i]);
            }
        }
        if trailing_word_len(s) < s.len() {
            assert(init[init.len() - trailing_word_len(init) - 1] == s[s.len() - trailing_word_len(
                s,
            ) - 1]);
        }
    }
}

/// The identifier prefix left of the cursor: on line `line` of `text`,
/// counted from zero, the run of identifier characters that ends after
/// `character` characters, or at the line's end where the line is shorter.
/// The line is cut at line feeds only, so a carriage return before the line
/// feed is a character of the line, and ends no identifier.
pub open spec fn word_before(text: Seq<char>, line: nat, character: nat) -> Seq<char> {
    trailing_word(leading(raw_line_of(text, line), character))
}

/// Whether `c` can stand in an identifier.
pub fn word_char(c: char) -> (b: bool)
    ensures
        b == is_word_char(c),
{
    c.is_alphanumeric() || c == '_'
}

/// The identifier that ends at `position` in `text`; empty where no
/// identifier character stands just before the cursor.
pub fn current_ident(text: &str, position: Position) -> (ident: String)
    ensures
        ident@ == word_before(text@, position.line as nat, position.character as nat),
{
    let v = chars_of(text);
    let (from, to) = raw_line_bounds(&v, position.line as usize);
    let want: usize = position.character as usize;
    let cursor: usize = if want <= to - from {
        from + want
    } else {
        to
    };
    let ghost before = v@.subrange(from as int, cursor as int);
    assert(before =~= leading(v@.subrange(from as int, to as int), want as nat));
    let mut begin: usize = cursor;
    while begin > from && word_char(v[begin - 1])
        invariant
            from <= begin <= cursor <= v.len(),
            before == v@.subrange(from as int, cursor as int),
            trailing_word_len(before) == (cursor - begin) + trailing_word_len(
                v@.subrange(from as int, begin as int),
            ),
        decreases begin,
    {
        proof {
            let s = v@.subrange(from as int, begin as int);
            assert(s.last() == v@[begin - 1]);
            assert(s.drop_last() =~= v@.subrange(from as int, begin - 1));
        }
        begin = begin - 1;
    }
    proof {
        let s = v@.subrange(from as int, begin as int);
        if begin > from {
            assert(s.last() == v@[begin - 1]);
        }
        assert(trailing_word_len(s) == 0);
        assert(v@.subrange(begin as int, cursor as int) =~= trailing_word(before));
    }
    string_of(&v, begin, cursor)
}

} // verus!
