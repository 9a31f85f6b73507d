//! Points and ranges in a markdown source.
use vstd::prelude::*;

verus! {

/// A place in the source: `line` and `column` start at 1, `offset` is the
/// byte index into the source text.
#[derive(Clone, Copy, Debug, PartialEq, Eq, Structural)]
pub struct Point {
    pub line: usize,
    pub column: usize,
    pub offset: usize,
}

/// A span of the source between two points.
#[derive(Clone, Copy, Debug, PartialEq, Eq, Structural)]
pub struct Position {
    pub start: Point,
    pub end: Point,
}

/// Number of bytes that the UTF-8 encoding of `c` takes.
pub open spec fn char_width(c: char) -> nat {
    if (c as u32) < 0x80 {
        1
    } else if (c as u32) < 0x800 {
        2
    } else if (c as u32) < 0x10000 {
        3
    } else {
        4
    }
}

/// Number of bytes that the UTF-8 encoding of `s` takes.
pub open spec fn utf8_len(s: Seq<char>) -> nat
    decreases s.len(),
{
    if s.len() == 0 {
        0
    } else {
        char_width(s[0]) + utf8_len(s.subrange(1, s.len() as int))
    }
}

/// The point reached by stepping over `c` from `p`.
pub open spec fn advanced(p: Point, c: char) -> Point {
    if c == '\n' {
        Point { line: (p.line + 1) as usize, column: 1, offset: (p.offset + 1) as usize }
    } else {
        Point {
            line: p.line,
            column: (p.column + char_width(c)) as usize,
            offset: (p.offset + char_width(c)) as usize,
        }
    }
}

/// Stepping over `c` from `p` keeps every coordinate within `usize`.
pub open spec fn can_advance(p: Point, c: char) -> bool {
    &&& p.line + 1 <= usize::MAX
    &&& p.column + char_width(c) <= usize::MAX
    &&& p.offset + char_width(c) <= usize::MAX
}

/// Stepping over all of `s` from `p` keeps every coordinate within `usize`.
pub open spec fn fits(p: Point, s: Seq<char>) -> bool {
    &&& p.line + s.len() <= usize::MAX
    &&& p.column + utf8_len(s) <= usize::MAX
    &&& p.offset + utf8_len(s) <= usize::MAX
}

/// The span from `start` to `end`.
pub open spec fn span(start: Point, end: Point) -> Position {
    Position { start, end }
}

/// Byte width of the UTF-8 encoding of `c`.
pub fn utf8_width(c: char) -> (r: usize)
    ensures
        r == char_width(c),
{
    let u = c as u32;
    if u < 0x80 {
        1
    } else if u < 0x800 {
        2
    } else if u < 0x10000 {
        3
    } else {
        4
    }
}

/// Moves `point` over the character `c`: a line feed starts the next line at
/// column 1, any other character moves the column by its byte width.
pub fn advance(point: &mut Point, c: char)
    requires
        can_advance(*old(point), c),
    ensures
        *final(point) == advanced(*old(point), c),
{
    let w = utf8_width(c);
    if c == '\n' {
        point.line = point.line + 1;
        point.column = 1;
    } else {
        point.column = point.column + w;
    }
    point.offset = point.offset + w;
}

/// The byte length of a concatenation is the sum of the byte lengths.
pub proof fn lemma_utf8_len_concat(a: Seq<char>, b: Seq<char>)
    ensures
        utf8_len(a + b) == utf8_len(a) + utf8_len(b),
    decreases a.len(),
{
    if a.len() == 0 {
        assert(a + b =~= b);
    } else {
        let t = a.subrange(1, a.len() as int);
        lemma_utf8_len_concat(t, b);
        assert((a + b).subrange(1, (a + b).len() as int) =~= t + b);
    }
}

/// A text has at least one byte for each character.
pub proof fn lemma_utf8_len_bound(s: Seq<char>)
    ensures
        s.len() <= utf8_len(s),
    decreases s.len(),
{
    if s.len() > 0 {
        lemma_utf8_len_bound(s.subrange(1, s.len() as int));
    }
}

/// The first point of a text.
pub open spec fn origin() -> Point {
    Point { line: 1, column: 1, offset: 0 }
}

/// Whether a text starting at [`origin`] keeps every coordinate within
/// `usize`.
pub fn fits_from_origin(s: &str) -> (r: bool)
    ensures
        r == fits(origin(), s@),
{
    let cs = crate::token::chars_of(s);
    let mut total: usize = 0;
    let mut i: usize = 0;
    proof {
        lemma_utf8_len_bound(s@);
        assert(cs@.subrange(0, 0) =~= Seq::<char>::empty());
    }
    while i < cs.len()
        invariant
            i <= cs@.len(),
            cs@ == s@,
            total == utf8_len(cs@.subrange(0, i as int)),
            total < usize::MAX,
        decreases cs@.len() - i,
    {
        let w = utf8_width(cs[i]);
        proof {
            let pre = cs@.subrange(0, i as int);
            let one = seq![cs@[i as int]];
            assert(one.subrange(1, 1) =~= Seq::<char>::empty());
            assert(utf8_len(one) == char_width(cs@[i as int])) by {
                reveal_with_fuel(utf8_len, 2);
            }
            lemma_utf8_len_concat(pre, one);
            assert(pre + one =~= cs@.subrange(0, i + 1));
            lemma_utf8_len_concat(cs@.subrange(0, i + 1), cs@.subrange(i + 1, cs@.len() as int));
            assert(cs@.subrange(0, i + 1) + cs@.subrange(i + 1, cs@.len() as int) =~= cs@);
        }
        if total >= usize::MAX - w {
            return false;
        }
        total = total + w;
        i = i + 1;
    }
    proof {
        assert(cs@.subrange(0, i as int) =~= cs@);
    }
    true
}

/// Stepping over the first character of `s` leaves room for the rest of it.
pub proof fn lemma_fits_advance(p: Point, s: Seq<char>)
    requires
        fits(p, s),
        s.len() > 0,
    ensures
        can_advance(p, s[0]),
        fits(advanced(p, s[0]), s.subrange(1, s.len() as int)),
{
}

impl Point {
    /// The point at `line`, `column` and byte `offset`.
    pub fn new(line: usize, column: usize, offset: usize) -> (r: Point)
        ensures
            r == (Point { line, column, offset }),
    {
        Point { line, column, offset }
    }
}

impl Position {
    /// The span from the first three coordinates to the last three.
    pub fn new(
        start_line: usize,
        start_column: usize,
        start_offset: usize,
        end_line: usize,
        end_column: usize,
        end_offset: usize,
    ) -> (r: Position)
        ensures
            r.start == (Point { line: start_line, column: start_column, offset: start_offset }),
            r.end == (Point { line: end_line, column: end_column, offset: end_offset }),
    {
        Position {
            start: Point::new(start_line, start_column, start_offset),
            end: Point::new(end_line, end_column, end_offset),
        }
    }
}

/// The span from `start` to `end`.
pub fn pos2(start: Point, end: Point) -> (r: Position)
    ensures
        r == span(start, end),
{
    Position { start, end }
}

/// The span that starts and ends at `p`.
pub fn pos1(p: Point) -> (r: Position)
    ensures
        r == span(p, p),
{
    Position { start: p, end: p }
}

} // verus!
