//! Text as a sequence of characters: its width in UTF-16 code units, and
//! its lines.

use vstd::prelude::*;
use vstd::std_specs::iter::IteratorSpec;

verus! {

broadcast use vstd::string::group_string_axioms;

/// The number of UTF-16 code units that encode `c`: two for a character
/// outside the Basic Multilingual Plane, one for any other.
pub open spec fn char_units(c: char) -> nat {
    if (c as u32) < 0x10000 {
        1
    } else {
        2
    }
}

/// The number of UTF-16 code units that encode `s`.
pub open spec fn utf16_units(s: Seq<char>) -> nat
    decreases s.len(),
{
    if s.len() == 0 {
        0
    } else {
        utf16_units(s.drop_last()) + char_units(s.last())
    }
}

/// The width of a text is the sum of the widths of its two parts.
pub proof fn lemma_utf16_units_concat(a: Seq<char>, b: Seq<char>)
    ensures
        utf16_units(a + b) == utf16_units(a) + utf16_units(b),
    decreases b.len(),
{
    if b.len() == 0 {
        assert(a + b =~= a);
    } else {
        lemma_utf16_units_concat(a, b.drop_last());
        assert((a + b).drop_last() =~= a + b.drop_last());
        assert((a + b).last() == b.last());
    }
}

/// A text of ASCII characters is as wide as it is long.
pub proof fn lemma_utf16_units_ascii(s: Seq<char>)
    requires
        forall|i: int| 0 <= i < s.len() ==> (#[trigger] s[i] as u32) < 0x80,
    ensures
        utf16_units(s) == s.len(),
    decreases s.len(),
{
    if s.len() > 0 {
        lemma_utf16_units_ascii(s.drop_last());
    }
}

/// The number of UTF-16 code units of one character.
pub fn char_width(c: char) -> (w: u32)
    ensures
        w == char_units(c),
{
    if (c as u32) < 0x10000 {
        1
    } else {
        2
    }
}

/// The characters of `s`, in order.
pub fn chars_of(s: &str) -> (v: Vec<char>)
    ensures
        v@ == s@,
{
    let mut it = s.chars();
    let mut v: Vec<char> = Vec::new();
    loop
        invariant
            v@ + it.remaining() == s@,
            it.decrease() is Some,
        ensures
            v@ == s@,
        decreases it.decrease()->0,
    {
        let ghost before = it.remaining();
        match it.next() {
            Some(c) => {
                v.push(c);
                assert(before =~= seq![c] + before.drop_first());
                assert(v@ + it.remaining() =~= s@);
            },
            None => {
                assert(v@ + it.remaining() =~= v@);
                break ;
            },
        }
    }
    v
}

/// `String::push` appends one character to the string.
pub assume_specification[ String::push ](s: &mut String, c: char)
    ensures
        final(s)@ == old(s)@.push(c),
;

/// The string made of the characters `v[from..to]`.
pub fn string_of(v: &Vec<char>, from: usize, to: usize) -> (s: String)
    requires
        from <= to <= v.len(),
    ensures
        s@ == v@.subrange(from as int, to as int),
{
    let mut s = String::new();
    let mut i: usize = from;
    while i < to
        invariant
            from <= i <= to <= v.len(),
            s@ == v@.subrange(from as int, i as int),
        decreases to - i,
    {
        s.push(v[i]);
        i = i + 1;
        assert(s@ =~= v@.subrange(from as int, i as int));
    }
    s
}

/// `n` as a `u32`, or `u32::MAX` where it does not fit.
pub open spec fn clamp_u32(n: nat) -> u32 {
    if n <= u32::MAX {
        n as u32
    } else {
        u32::MAX
    }
}

/// `n` as a `usize`, or `usize::MAX` where it does not fit.
pub open spec fn clamp_usize(n: nat) -> usize {
    if n <= usize::MAX {
        n as usize
    } else {
        usize::MAX
    }
}

/// `a + b`, or `u32::MAX` where the sum does not fit.
pub fn saturating_sum(a: u32, b: u32) -> (r: u32)
    ensures
        r == clamp_u32((a + b) as nat),
{
    if a > u32::MAX - b {
        u32::MAX
    } else {
        a + b
    }
}

/// The UTF-16 width of `v[from..to]`, saturating at `u32::MAX`.
pub fn utf16_width(v: &Vec<char>, from: usize, to: usize) -> (w: u32)
    requires
        from <= to <= v.len(),
    ensures
        w == clamp_u32(utf16_units(v@.subrange(from as int, to as int))),
{
    let mut w: u32 = 0;
    let mut i: usize = from;
    while i < to
        invariant
            from <= i <= to <= v.len(),
            w == clamp_u32(utf16_units(v@.subrange(from as int, i as int))),
        decreases to - i,
    {
        let c = v[i];
        proof {
            let next = v@.subrange(from as int, i + 1);
            assert(next.drop_last() =~= v@.subrange(from as int, i as int));
            assert(next.last() == c);
        }
        w = saturating_sum(w, char_width(c));
        i = i + 1;
    }
    w
}

/// A text that reports its width in UTF-16 code units.
pub trait UTF16Len {
    /// The exact number of code units.
    spec fn units(&self) -> nat;

    /// The number of code units, saturating at `usize::MAX`.
    fn utf16_len(&self) -> (n: usize)
        ensures
            n == clamp_usize(self.units()),
            self.units() <= usize::MAX ==> n == self.units(),
    ;
}

/// The number of UTF-16 code units of `s`, saturating at `usize::MAX`.
pub fn utf16_len_of(s: &str) -> (n: usize)
    ensures
        n == clamp_usize(utf16_units(s@)),
        utf16_units(s@) <= usize::MAX ==> n == utf16_units(s@),
{
    let v = chars_of(s);
    let mut n: usize = 0;
    let mut i: usize = 0;
    while i < v.len()
        invariant
            i <= v.len(),
            n == clamp_usize(utf16_units(v@.subrange(0, i as int))),
        decreases v.len() - i,
    {
        let c = v[i];
        proof {
            let next = v@.subrange(0, i + 1);
            assert(next.drop_last() =~= v@.subrange(0, i as int));
            assert(next.last() == c);
        }
        let w: usize = if (c as u32) < 0x10000 {
            1
        } else {
            2
        };
        n = if n > usize::MAX - w {
            usize::MAX
        } else {
            n + w
        };
        i = i + 1;
    }
    assert(v@.subrange(0, v.len() as int) =~= v@);
    n
}

impl UTF16Len for String {
    open spec fn units(&self) -> nat {
        utf16_units(self@)
    }

    fn utf16_len(&self) -> (n: usize) {
        utf16_len_of(self.as_str())
    }
}

impl UTF16Len for std::sync::Arc<str> {
    open spec fn units(&self) -> nat {
        utf16_units((**self)@)
    }

    fn utf16_len(&self) -> (n: usize) {
        utf16_len_of(&**self)
    }
}

impl UTF16Len for std::rc::Rc<str> {
    open spec fn units(&self) -> nat {
        utf16_units((**self)@)
    }

    fn utf16_len(&self) -> (n: usize) {
        utf16_len_of(&**self)
    }
}

/// The index of the first line feed in `s`, or the length of `s` where it
/// holds none.
pub open spec fn first_newline(s: Seq<char>) -> nat
    decreases s.len(),
{
    if s.len() == 0 || s[0] == '\n' {
        0
    } else {
        1 + first_newline(s.drop_first())
    }
}

/// `first_newline(s)` is the one index that no line feed precedes and that
/// is the end of `s` or holds a line feed.
pub proof fn lemma_first_newline(s: Seq<char>, n: int)
    requires
        0 <= n <= s.len(),
        forall|j: int| 0 <= j < n ==> s[j] != '\n',
        n == s.len() || s[n] == '\n',
    ensures
        first_newline(s) == n,
    decreases s.len(),
{
    if n > 0 {
        let rest = s.drop_first();
        assert forall|j: int| 0 <= j < n - 1 implies rest[j] != '\n' by {
            assert(rest[j] == s[j + 1]);
        }
        lemma_first_newline(rest, n - 1);
    }
}

/// Line `k` of `s`, counted from zero, without its line ending. A line ends
/// at a line feed or at the end of the text; a carriage return just before
/// the line feed belongs to the line ending. A line that the text does not
/// have is empty.
pub open spec fn line_of(s: Seq<char>, k: nat) -> Seq<char>
    decreases k,
{
    let n = first_newline(s) as int;
    if k == 0 {
        if 0 < n < s.len() && s[n - 1] == '\r' {
            s.subrange(0, n - 1)
        } else {
            s.subrange(0, n)
        }
    } else if n < s.len() {
        line_of(s.subrange(n + 1, s.len() as int), (k - 1) as nat)
    } else {
        Seq::empty()
    }
}

/// Line `k` of `s`, counted from zero, cut at line feeds only: every other
/// character, a carriage return too, belongs to the line. A line that the
/// text does not have is empty.
pub open spec fn raw_line_of(s: Seq<char>, k: nat) -> Seq<char>
    decreases k,
{
    let n = first_newline(s) as int;
    if k == 0 {
        s.subrange(0, n)
    } else if n < s.len() {
        raw_line_of(s.subrange(n + 1, s.len() as int), (k - 1) as nat)
    } else {
        Seq::empty()
    }
}

/// The index of the first line feed at or after `start`, or the length of
/// `v` where none follows.
pub fn newline_from(v: &Vec<char>, start: usize) -> (end: usize)
    requires
        start <= v.len(),
    ensures
        start <= end <= v.len(),
        end - start == first_newline(v@.subrange(start as int, v.len() as int)),
{
    let mut end: usize = start;
    while end < v.len() && v[end] != '\n'
        invariant
            start <= end <= v.len(),
            forall|j: int| start <= j < end ==> v@[j] != '\n',
        decreases v.len() - end,
    {
        end = end + 1;
    }
    proof {
        lemma_first_newline(v@.subrange(start as int, v.len() as int), end - start);
    }
    end
}

/// Where line `line` of `v`, counted from zero, begins and ends.
pub fn line_bounds(v: &Vec<char>, line: usize) -> (b: (usize, usize))
    ensures
        b.0 <= b.1 <= v.len(),
        v@.subrange(b.0 as int, b.1 as int) == line_of(v@, line as nat),
{
    let mut start: usize = 0;
    let mut k: usize = 0;
    assert(v@.subrange(0, v.len() as int) =~= v@);
    loop
        invariant
            start <= v.len(),
            k <= line,
            line_of(v@, line as nat) == line_of(
                v@.subrange(start as int, v.len() as int),
                (line - k) as nat,
            ),
        decreases v.len() - start,
    {
        let ghost rest = v@.subrange(start as int, v.len() as int);
        let end = newline_from(v, start);
        if k == line {
            let stop = if start < end && end < v.len() && v[end - 1] == '\r' {
                end - 1
            } else {
                end
            };
            assert(v@.subrange(start as int, stop as int) =~= line_of(rest, 0));
            return (start, stop);
        }
        if end == v.len() {
            assert(v@.subrange(end as int, end as int) =~= Seq::<char>::empty());
            return (end, end);
        }
        assert(rest.subrange(end - start + 1, rest.len() as int) =~= v@.subrange(
            end + 1,
            v.len() as int,
        ));
        start = end + 1;
        k = k + 1;
    }
}

/// Where line `line` of `v`, counted from zero and cut at line feeds only,
/// begins and ends.
pub fn raw_line_bounds(v: &Vec<char>, line: usize) -> (b: (usize, usize))
    ensures
        b.0 <= b.1 <= v.len(),
        v@.subrange(b.0 as int, b.1 as int) == raw_line_of(v@, line as nat),
{
    let mut start: usize = 0;
    let mut k: usize = 0;
    assert(v@.subrange(0, v.len() as int) =~= v@);
    loop
        invariant
            start <= v.len(),
            k <= line,
            raw_line_of(v@, line as nat) == raw_line_of(
                v@.subrange(start as int, v.len() as int),
                (line - k) as nat,
            ),
        decreases v.len() - start,
    {
        let ghost rest = v@.subrange(start as int, v.len() as int);
        let end = newline_from(v, start);
        if k == line {
            assert(v@.subrange(start as int, end as int) =~= raw_line_of(rest, 0));
            return (start, end);
        }
        if end == v.len() {
            assert(v@.subrange(end as int, end as int) =~= Seq::<char>::empty());
            return (end, end);
        }
        assert(rest.subrange(end - start + 1, rest.len() as int) =~= v@.subrange(
            end + 1,
            v.len() as int,
        ));
        start = end + 1;
        k = k + 1;
    }
}

} // verus!
