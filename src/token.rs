//! An inline tokenizer that recognises brackets, double brackets, pipes,
//! line feeds and runs of other characters, each with its source span.
use vstd::prelude::*;
use crate::position::{
    advance, advanced, can_advance, char_width, fits, lemma_fits_advance, lemma_utf8_len_concat, pos2, span, utf8_len, Point,
    Position,
};

verus! {

/// A token of the inline syntax.
#[derive(Clone, Debug, PartialEq, Eq)]
pub enum Token {
    Pipe,
    RBra,
    LBra,
    RRBra,
    LLBra,
    Word(String),
    NewLine,
}

/// The mathematical value of a [`Token`].
pub enum Lexeme {
    Pipe,
    RBra,
    LBra,
    RRBra,
    LLBra,
    Word(Seq<char>),
    NewLine,
}

impl View for Token {
    type V = Lexeme;

    open spec fn view(&self) -> Lexeme {
        match self {
            Token::Pipe => Lexeme::Pipe,
            Token::RBra => Lexeme::RBra,
            Token::LBra => Lexeme::LBra,
            Token::RRBra => Lexeme::RRBra,
            Token::LLBra => Lexeme::LLBra,
            Token::Word(s) => Lexeme::Word(s@),
            Token::NewLine => Lexeme::NewLine,
        }
    }
}

/// The source text that a lexeme stands for.
pub open spec fn lexeme_text(l: Lexeme) -> Seq<char> {
    match l {
        Lexeme::Pipe => seq!['|'],
        Lexeme::RBra => seq![']'],
        Lexeme::LBra => seq!['['],
        Lexeme::RRBra => seq![']', ']'],
        Lexeme::LLBra => seq!['[', '['],
        Lexeme::Word(s) => s,
        Lexeme::NewLine => seq!['\n'],
    }
}

impl Token {
    /// The source text that the token stands for.
    pub fn to_string(&self) -> (r: String)
        ensures
            r@ == lexeme_text(self@),
    {
        match self {
            Token::Pipe => {
                proof {
                    reveal_strlit("|");
                }
                String::from_str("|")
            },
            Token::RBra => {
                proof {
                    reveal_strlit("]");
                }
                String::from_str("]")
            },
            Token::LBra => {
                proof {
                    reveal_strlit("[");
                }
                String::from_str("[")
            },
            Token::RRBra => {
                proof {
                    reveal_strlit("]]");
                }
                String::from_str("]]")
            },
            Token::LLBra => {
                proof {
                    reveal_strlit("[[");
                }
                String::from_str("[[")
            },
            Token::Word(s) => s.clone(),
            Token::NewLine => {
                proof {
                    reveal_strlit("\n");
                }
                String::from_str("\n")
            },
        }
    }
}


/// What the tokenizer holds between two characters: the token that is being
/// read, if any, with where it started.
pub enum State {
    Default,
    AfterPipe(Position),
    AfterOpen1(Position),
    AfterOpen2(Position),
    AfterOpen3(Position),
    AfterClose1(Position),
    AfterClose2(Position),
    AfterClose3(Position),
    AfterSymbol(Position, String),
    AfterReturn(Position),
}

/// The mathematical value of a [`State`].
pub enum Pending {
    Default,
    AfterPipe(Position),
    AfterOpen1(Position),
    AfterOpen2(Position),
    AfterOpen3(Position),
    AfterClose1(Position),
    AfterClose2(Position),
    AfterClose3(Position),
    AfterSymbol(Position, Seq<char>),
    AfterReturn(Position),
}

impl View for State {
    type V = Pending;

    open spec fn view(&self) -> Pending {
        match self {
            State::Default => Pending::Default,
            State::AfterPipe(p) => Pending::AfterPipe(*p),
            State::AfterOpen1(p) => Pending::AfterOpen1(*p),
            State::AfterOpen2(x) => Pending::AfterOpen2(*x),
            State::AfterOpen3(p) => Pending::AfterOpen3(*p),
            State::AfterClose1(p) => Pending::AfterClose1(*p),
            State::AfterClose2(x) => Pending::AfterClose2(*x),
            State::AfterClose3(p) => Pending::AfterClose3(*p),
            State::AfterSymbol(x, s) => Pending::AfterSymbol(*x, s@),
            State::AfterReturn(p) => Pending::AfterReturn(*p),
        }
    }
}

/// A token with its span, as a mathematical value.
pub type Item = (Lexeme, Position);

/// The mathematical value of an optional token with its span.
pub open spec fn item_view(i: Option<(Token, Position)>) -> Option<Item> {
    match i {
        Some(x) => Some((x.0@, x.1)),
        None => None,
    }
}

/// The token that a pending state stands for once the input ends or the
/// next character cannot extend it.
pub open spec fn finalized(p: Pending) -> Option<Item> {
    match p {
        Pending::AfterPipe(x) => Some((Lexeme::Pipe, x)),
        Pending::AfterOpen1(x) => Some((Lexeme::LBra, x)),
        Pending::AfterOpen2(x) => Some((Lexeme::LLBra, x)),
        Pending::AfterOpen3(x) => Some((Lexeme::LBra, x)),
        Pending::AfterClose1(x) => Some((Lexeme::RBra, x)),
        Pending::AfterClose2(x) => Some((Lexeme::RRBra, x)),
        Pending::AfterClose3(x) => Some((Lexeme::RBra, x)),
        Pending::AfterSymbol(x, s) => Some((Lexeme::Word(s), x)),
        Pending::AfterReturn(x) => Some((Lexeme::NewLine, x)),
        Pending::Default => None,
    }
}

/// One transition of the tokenizer on character `c` read at `cursor`: the
/// next pending state and the token completed by it, if any.
pub open spec fn step(p: Pending, c: char, cursor: Point) -> (Pending, Option<Item>) {
    let here = span(cursor, advanced(cursor, c));
    if c == '\r' {
        (p, None)
    } else if c == '\n' {
        (Pending::AfterReturn(here), finalized(p))
    } else if c == '[' {
        match p {
            Pending::AfterOpen1(q) => (Pending::AfterOpen2(span(q.start, here.end)), None),
            Pending::AfterOpen2(_) => (Pending::AfterOpen3(here), finalized(p)),
            Pending::AfterOpen3(_) => (Pending::AfterOpen3(here), finalized(p)),
            _ => (Pending::AfterOpen1(here), finalized(p)),
        }
    } else if c == ']' {
        match p {
            Pending::AfterClose1(q) => (Pending::AfterClose2(span(q.start, here.end)), None),
            Pending::AfterClose2(_) => (Pending::AfterClose3(here), finalized(p)),
            Pending::AfterClose3(_) => (Pending::AfterClose3(here), finalized(p)),
            _ => (Pending::AfterClose1(here), finalized(p)),
        }
    } else if c == '|' {
        (Pending::AfterPipe(here), finalized(p))
    } else {
        match p {
            Pending::AfterSymbol(x, s) => (Pending::AfterSymbol(span(x.start, here.end), s.push(c)), None),
            _ => (Pending::AfterSymbol(here, seq![c]), finalized(p)),
        }
    }
}

/// The mathematical value of a tokenizer: the characters left to read, the
/// point of the next one, and the pending state.
pub struct Scan {
    pub rest: Seq<char>,
    pub cursor: Point,
    pub pending: Pending,
}

/// One call of `next`: reads characters until a token is complete, or
/// finalizes the pending state at the end of the input.
pub open spec fn scan(s: Scan) -> (Option<Item>, Scan)
    decreases s.rest.len(),
{
    if s.rest.len() == 0 {
        (finalized(s.pending), Scan { rest: s.rest, cursor: s.cursor, pending: Pending::Default })
    } else {
        let c = s.rest[0];
        let (p, item) = step(s.pending, c, s.cursor);
        let next = Scan {
            rest: s.rest.subrange(1, s.rest.len() as int),
            cursor: advanced(s.cursor, c),
            pending: p,
        };
        if item is Some {
            (item, next)
        } else {
            scan(next)
        }
    }
}


/// A bound that every token yielded by [`scan`] lowers.
pub open spec fn measure(s: Scan) -> nat {
    2 * s.rest.len() + if s.pending is Default {
        0nat
    } else {
        1nat
    }
}

/// A call of `next` that yields nothing has read the whole input and leaves
/// nothing pending; one that yields a token lowers the measure.
pub proof fn lemma_scan_progress(s: Scan)
    ensures
        scan(s).0 is None ==> scan(s).1.rest.len() == 0 && scan(s).1.pending is Default,
        scan(s).0 is Some ==> measure(scan(s).1) < measure(s),
    decreases s.rest.len(),
{
    if s.rest.len() > 0 {
        let c = s.rest[0];
        let (p, item) = step(s.pending, c, s.cursor);
        let next = Scan {
            rest: s.rest.subrange(1, s.rest.len() as int),
            cursor: advanced(s.cursor, c),
            pending: p,
        };
        if item is None {
            lemma_scan_progress(next);
        }
    }
}

/// Every token that repeated calls of `next` yield, in order.
pub open spec fn all_tokens(s: Scan) -> Seq<Item>
    decreases measure(s),
    via all_tokens_decreases
{
    match scan(s).0 {
        Some(t) => seq![t] + all_tokens(scan(s).1),
        None => seq![],
    }
}

#[via_fn]
proof fn all_tokens_decreases(s: Scan) {
    lemma_scan_progress(s);
}

/// `s` without its carriage returns.
pub open spec fn strip_cr(s: Seq<char>) -> Seq<char>
    decreases s.len(),
{
    if s.len() == 0 {
        seq![]
    } else if s[0] == '\r' {
        strip_cr(s.subrange(1, s.len() as int))
    } else {
        seq![s[0]] + strip_cr(s.subrange(1, s.len() as int))
    }
}

/// The source text that a pending state has read so far.
pub open spec fn pending_text(p: Pending) -> Seq<char> {
    match finalized(p) {
        Some(t) => lexeme_text(t.0),
        None => seq![],
    }
}

/// The text of the tokens of `ts`, one after the other.
pub open spec fn joined(ts: Seq<Item>) -> Seq<char>
    decreases ts.len(),
{
    if ts.len() == 0 {
        seq![]
    } else {
        lexeme_text(ts[0].0) + joined(ts.subrange(1, ts.len() as int))
    }
}

proof fn lemma_step_text(p: Pending, c: char, cursor: Point)
    ensures
        pending_text(p) + strip_cr(seq![c]) == match step(p, c, cursor).1 {
            Some(t) => lexeme_text(t.0),
            None => Seq::<char>::empty(),
        } + pending_text(step(p, c, cursor).0),
{
    assert(seq![c].subrange(1, 1) =~= Seq::<char>::empty());
    assert(strip_cr(Seq::<char>::empty()) =~= Seq::<char>::empty());
    if c == '\r' {
        assert(strip_cr(seq![c]) =~= Seq::<char>::empty());
        assert(pending_text(p) + Seq::<char>::empty() =~= pending_text(p));
    } else {
        assert(strip_cr(seq![c]) =~= seq![c]);
        match p {
            Pending::AfterSymbol(x, s) => {
                if c != '\n' && c != '[' && c != ']' && c != '|' {
                    assert(s + seq![c] =~= s.push(c));
                    assert(Seq::<char>::empty() + s.push(c) =~= s.push(c));
                }
            },
            _ => {},
        }
        let (q, item) = step(p, c, cursor);
        if item is None {
            assert(Seq::<char>::empty() + pending_text(q) =~= pending_text(q));
        }
        assert(pending_text(p) + seq![c] =~= match item {
            Some(t) => lexeme_text(t.0),
            None => Seq::<char>::empty(),
        } + pending_text(q));
    }
}


proof fn lemma_strip_cr_cons(s: Seq<char>)
    requires
        s.len() > 0,
    ensures
        strip_cr(s) == strip_cr(seq![s[0]]) + strip_cr(s.subrange(1, s.len() as int)),
{
    let one = seq![s[0]];
    assert(one.subrange(1, 1) =~= Seq::<char>::empty());
    assert(strip_cr(Seq::<char>::empty()) =~= Seq::<char>::empty());
    let t = strip_cr(s.subrange(1, s.len() as int));
    if s[0] == '\r' {
        assert(Seq::<char>::empty() + t =~= t);
    } else {
        assert(seq![s[0]] + Seq::<char>::empty() =~= seq![s[0]]);
    }
}

/// What one call of `next` yields, followed by what stays pending and unread,
/// is the text that was pending and unread before it.
proof fn lemma_scan_text(s: Scan)
    ensures
        pending_text(s.pending) + strip_cr(s.rest) == match scan(s).0 {
            Some(t) => lexeme_text(t.0),
            None => Seq::<char>::empty(),
        } + pending_text(scan(s).1.pending) + strip_cr(scan(s).1.rest),
    decreases s.rest.len(),
{
    let (item, out) = scan(s);
    if s.rest.len() == 0 {
        assert(strip_cr(s.rest) =~= Seq::<char>::empty());
        assert(pending_text(s.pending) + Seq::<char>::empty() =~= pending_text(s.pending));
        assert(pending_text(Pending::Default) =~= Seq::<char>::empty());
        match item {
            Some(t) => {
                assert(lexeme_text(t.0) + Seq::<char>::empty() + Seq::<char>::empty() =~= lexeme_text(t.0));
            },
            None => {
                assert(Seq::<char>::empty() + Seq::<char>::empty() + Seq::<char>::empty() =~= Seq::<char>::empty());
            },
        }
    } else {
        let c = s.rest[0];
        let (p, first) = step(s.pending, c, s.cursor);
        let tail = s.rest.subrange(1, s.rest.len() as int);
        let next = Scan { rest: tail, cursor: advanced(s.cursor, c), pending: p };
        lemma_step_text(s.pending, c, s.cursor);
        lemma_strip_cr_cons(s.rest);
        let a = pending_text(s.pending);
        let b = strip_cr(seq![c]);
        let r = strip_cr(tail);
        assert(a + (b + r) =~= (a + b) + r);
        if first is None {
            lemma_scan_text(next);
            assert(Seq::<char>::empty() + pending_text(p) =~= pending_text(p));
        }
    }
}

/// The text of every token of `s`, one after the other, is the text that is
/// pending and unread in `s`.
pub proof fn lemma_all_tokens_text(s: Scan)
    ensures
        joined(all_tokens(s)) == pending_text(s.pending) + strip_cr(s.rest),
    decreases measure(s),
{
    lemma_scan_progress(s);
    lemma_scan_text(s);
    let (item, next) = scan(s);
    match item {
        Some(t) => {
            lemma_all_tokens_text(next);
            let ts = all_tokens(s);
            assert(ts == seq![t] + all_tokens(next));
            assert(ts.subrange(1, ts.len() as int) =~= all_tokens(next));
            assert(joined(ts) == lexeme_text(t.0) + joined(all_tokens(next)));
            let x = lexeme_text(t.0);
            let y = pending_text(next.pending);
            let z = strip_cr(next.rest);
            assert(x + (y + z) =~= x + y + z);
        },
        None => {
            assert(all_tokens(s) =~= Seq::<Item>::empty());
            assert(strip_cr(next.rest) =~= Seq::<char>::empty());
            assert(pending_text(next.pending) =~= Seq::<char>::empty());
            assert(Seq::<char>::empty() + Seq::<char>::empty() + Seq::<char>::empty() =~= Seq::<char>::empty());
        },
    }
}

/// A text without carriage returns is left as it is by [`strip_cr`].
pub proof fn lemma_strip_cr_id(s: Seq<char>)
    requires
        !s.contains('\r'),
    ensures
        strip_cr(s) == s,
    decreases s.len(),
{
    if s.len() > 0 {
        let tail = s.subrange(1, s.len() as int);
        assert(!tail.contains('\r')) by {
            if tail.contains('\r') {
                let i = choose|i: int| 0 <= i < tail.len() && tail[i] == '\r';
                assert(s[i + 1] == '\r');
            }
        }
        assert(s[0] != '\r') by {
            assert(s.contains(s[0]));
        }
        lemma_strip_cr_id(tail);
        assert(seq![s[0]] + tail =~= s);
    }
}

/// The tokenizer started on `source` at any point: the text of its tokens,
/// one after the other, is `source` without its carriage returns, and is
/// `source` itself where it holds none.
pub proof fn lemma_tokens_round_trip(source: Seq<char>, start: Point)
    ensures
        joined(all_tokens(Scan { rest: source, cursor: start, pending: Pending::Default }))
            == strip_cr(source),
        !source.contains('\r') ==> joined(
            all_tokens(Scan { rest: source, cursor: start, pending: Pending::Default }),
        ) == source,
{
    let s = Scan { rest: source, cursor: start, pending: Pending::Default };
    lemma_all_tokens_text(s);
    assert(pending_text(Pending::Default) + strip_cr(source) =~= strip_cr(source));
    if !source.contains('\r') {
        lemma_strip_cr_id(source);
    }
}


/// The span of the token that a pending state stands for ends at `cursor`,
/// the point after its last character, and covers exactly its text.
pub open spec fn spans_up_to(p: Pending, cursor: Point) -> bool {
    match finalized(p) {
        Some(t) => {
            let text = lexeme_text(t.0);
            &&& text.len() > 0
            &&& t.1.start.offset + utf8_len(text) == cursor.offset
            &&& t.1.end == cursor
        },
        None => true,
    }
}

/// Where the pending text of a scan starts in the source.
pub open spec fn base(s: Scan) -> int {
    s.cursor.offset - utf8_len(pending_text(s.pending))
}

proof fn lemma_fixed_lexemes()
    ensures
        utf8_len(lexeme_text(Lexeme::Pipe)) == 1,
        utf8_len(lexeme_text(Lexeme::LBra)) == 1,
        utf8_len(lexeme_text(Lexeme::RBra)) == 1,
        utf8_len(lexeme_text(Lexeme::LLBra)) == 2,
        utf8_len(lexeme_text(Lexeme::RRBra)) == 2,
        utf8_len(lexeme_text(Lexeme::NewLine)) == 1,
{
    reveal_with_fuel(utf8_len, 3);
    assert(seq!['|'].subrange(1, 1) =~= Seq::<char>::empty());
    assert(seq!['['].subrange(1, 1) =~= Seq::<char>::empty());
    assert(seq![']'].subrange(1, 1) =~= Seq::<char>::empty());
    assert(seq!['\n'].subrange(1, 1) =~= Seq::<char>::empty());
    assert(seq!['[', '['].subrange(1, 2) =~= seq!['[']);
    assert(seq![']', ']'].subrange(1, 2) =~= seq![']']);
}

proof fn lemma_step_spans(p: Pending, c: char, cursor: Point)
    requires
        spans_up_to(p, cursor),
        c != '\r',
        can_advance(cursor, c),
    ensures
        spans_up_to(step(p, c, cursor).0, advanced(cursor, c)),
        step(p, c, cursor).1 is Some ==> step(p, c, cursor).1 == finalized(p),
{
    let one = seq![c];
    assert(one.subrange(1, 1) =~= Seq::<char>::empty());
    assert(utf8_len(one) == char_width(c)) by {
        reveal_with_fuel(utf8_len, 2);
    }
    lemma_fixed_lexemes();
    match p {
        Pending::AfterSymbol(x, t) => {
            if c != '\n' && c != '[' && c != ']' && c != '|' {
                lemma_utf8_len_concat(t, one);
                assert(t + one =~= t.push(c));
            }
        },
        _ => {},
    }
}

proof fn lemma_scan_spans(s: Scan)
    requires
        spans_up_to(s.pending, s.cursor),
        fits(s.cursor, s.rest),
        !s.rest.contains('\r'),
    ensures
        spans_up_to(scan(s).1.pending, scan(s).1.cursor),
        fits(scan(s).1.cursor, scan(s).1.rest),
        !scan(s).1.rest.contains('\r'),
        match scan(s).0 {
            Some(t) => t.1.start.offset == base(s) && base(scan(s).1) == base(s) + utf8_len(
                lexeme_text(t.0),
            ) && t.1.end.offset == base(scan(s).1)
                && lexeme_text(t.0).len() > 0,
            None => true,
        },
    decreases s.rest.len(),
{
    if s.rest.len() == 0 {
        assert(utf8_len(Seq::<char>::empty()) == 0);
    } else {
        let c = s.rest[0];
        assert(s.rest.contains(c));
        lemma_fits_advance(s.cursor, s.rest);
        lemma_step_spans(s.pending, c, s.cursor);
        lemma_step_text(s.pending, c, s.cursor);
        let (p, item) = step(s.pending, c, s.cursor);
        let tail = s.rest.subrange(1, s.rest.len() as int);
        let next = Scan { rest: tail, cursor: advanced(s.cursor, c), pending: p };
        assert(!tail.contains('\r')) by {
            if tail.contains('\r') {
                let i = choose|i: int| 0 <= i < tail.len() && tail[i] == '\r';
                assert(s.rest[i + 1] == '\r');
            }
        }
        let one = seq![c];
        assert(one.subrange(1, 1) =~= Seq::<char>::empty());
        assert(strip_cr(Seq::<char>::empty()) =~= Seq::<char>::empty());
        assert(strip_cr(one) =~= one);
        assert(utf8_len(one) == char_width(c)) by {
            reveal_with_fuel(utf8_len, 2);
        }
        lemma_utf8_len_concat(pending_text(s.pending), one);
        match item {
            Some(t) => {
                lemma_utf8_len_concat(lexeme_text(t.0), pending_text(p));
            },
            None => {
                assert(Seq::<char>::empty() + pending_text(p) =~= pending_text(p));
                lemma_scan_spans(next);
            },
        }
    }
}

/// The token `ts[k]` has text, starts at the byte that follows the text of
/// the tokens before it, counted from `origin`, and its span ends at the
/// byte after its last character.
pub open spec fn span_at(ts: Seq<Item>, k: int, origin: int) -> bool {
    let t = ts[k];
    &&& lexeme_text(t.0).len() > 0
    &&& t.1.start.offset == origin + utf8_len(text_before(ts, k))
    &&& t.1.end.offset == origin + utf8_len(text_before(ts, k + 1))
}

/// The text of the tokens `ts[..k]`.
pub open spec fn text_before(ts: Seq<Item>, k: int) -> Seq<char> {
    joined(ts.subrange(0, k))
}

proof fn lemma_joined_prefix(t: Item, rest: Seq<Item>, k: int)
    requires
        1 <= k <= rest.len() + 1,
    ensures
        joined((seq![t] + rest).subrange(0, k)) == lexeme_text(t.0) + joined(rest.subrange(0, k - 1)),
{
    let ts = seq![t] + rest;
    let pre = ts.subrange(0, k);
    assert(pre[0] == t);
    assert(pre.subrange(1, pre.len() as int) =~= rest.subrange(0, k - 1));
}

/// Every token of `s` starts where the text of the tokens before it ends,
/// counted in bytes from where the pending text of `s` starts; its span
/// ends at the byte after its last character.
pub proof fn lemma_all_tokens_spans(s: Scan)
    requires
        spans_up_to(s.pending, s.cursor),
        fits(s.cursor, s.rest),
        !s.rest.contains('\r'),
    ensures
        forall|k: int|
            #![trigger all_tokens(s)[k]]
            0 <= k < all_tokens(s).len() ==> span_at(all_tokens(s), k, base(s)),
    decreases measure(s),
{
    lemma_scan_progress(s);
    lemma_scan_spans(s);
    let (item, next) = scan(s);
    if let Some(t) = item {
        lemma_all_tokens_spans(next);
        let rest = all_tokens(next);
        let ts = all_tokens(s);
        assert(ts == seq![t] + rest);
        assert forall|k: int| #![trigger ts[k]] 0 <= k < ts.len() implies span_at(ts, k, base(s)) by {
            lemma_joined_prefix(t, rest, k + 1);
            lemma_utf8_len_concat(lexeme_text(t.0), text_before(rest, k));
            if k == 0 {
                assert(ts.subrange(0, 0) =~= Seq::<Item>::empty());
                assert(rest.subrange(0, 0) =~= Seq::<Item>::empty());
                assert(lexeme_text(t.0) + Seq::<char>::empty() =~= lexeme_text(t.0));
            } else {
                assert(ts[k] == rest[k - 1]);
                lemma_joined_prefix(t, rest, k);
                lemma_utf8_len_concat(lexeme_text(t.0), text_before(rest, k - 1));
            }
        }
    }
}

/// The tokenizer started on `source` at `start`: the spans tile the source.
/// Every token starts at the
/// byte that follows the text of the tokens before it, and its span ends
/// at the byte after its last character, where `source` holds no
/// carriage return.
pub proof fn lemma_token_spans(source: Seq<char>, start: Point)
    requires
        !source.contains('\r'),
        fits(start, source),
    ensures
        forall|k: int|
            #![trigger all_tokens(Scan { rest: source, cursor: start, pending: Pending::Default })[k]]
            0 <= k < all_tokens(Scan { rest: source, cursor: start, pending: Pending::Default }).len()
                ==> span_at(
                all_tokens(Scan { rest: source, cursor: start, pending: Pending::Default }),
                k,
                start.offset as int,
            ),
        ({
            let ts = all_tokens(Scan { rest: source, cursor: start, pending: Pending::Default });
            ts.len() > 0 ==> ts.last().1.end.offset == start.offset + utf8_len(source)
        }),
{
    let s = Scan { rest: source, cursor: start, pending: Pending::Default };
    assert(utf8_len(Seq::<char>::empty()) == 0);
    lemma_all_tokens_spans(s);
    lemma_tokens_round_trip(source, start);
    let ts = all_tokens(s);
    if ts.len() > 0 {
        assert(ts.subrange(0, ts.len() as int) =~= ts);
        assert(ts.last() == ts[ts.len() - 1]);
    }
}

/// Relies on `str::chars`: the characters of `s`, in order.
#[verifier::external_body]
pub(crate) fn chars_of(s: &str) -> (r: Vec<char>)
    ensures
        r@ == s@,
{
    s.chars().collect()
}

/// Relies on `String::push`: appends `c` at the end of `s`.
#[verifier::external_body]
pub(crate) fn push_char(s: &mut String, c: char)
    ensures
        final(s)@ == old(s)@.push(c),
{
    s.push(c)
}

impl State {
    /// The token that this state stands for, if any.
    pub fn finalize(self) -> (r: Option<(Token, Position)>)
        ensures
            item_view(r) == finalized(self@),
    {
        match self {
            State::AfterPipe(x) => Some((Token::Pipe, x)),
            State::AfterOpen1(x) => Some((Token::LBra, x)),
            State::AfterOpen2(x) => Some((Token::LLBra, x)),
            State::AfterOpen3(x) => Some((Token::LBra, x)),
            State::AfterClose1(x) => Some((Token::RBra, x)),
            State::AfterClose2(x) => Some((Token::RRBra, x)),
            State::AfterClose3(x) => Some((Token::RBra, x)),
            State::AfterSymbol(x, s) => Some((Token::Word(s), x)),
            State::AfterReturn(x) => Some((Token::NewLine, x)),
            State::Default => None,
        }
    }

    /// One transition on character `c` read at `cursor`; `next` is the
    /// point after it.
    pub fn transition(self, c: char, cursor: Point, next: Point) -> (r: (State, Option<(Token, Position)>))
        requires
            next == advanced(cursor, c),
        ensures
            r.0@ == step(self@, c, cursor).0,
            item_view(r.1) == step(self@, c, cursor).1,
    {
        let here = pos2(cursor, next);
        if c == '\r' {
            (self, None)
        } else if c == '\n' {
            (State::AfterReturn(here), self.finalize())
        } else if c == '[' {
            match self {
                State::AfterOpen1(q) => (State::AfterOpen2(pos2(q.start, next)), None),
                State::AfterOpen2(x) => (State::AfterOpen3(here), State::AfterOpen2(x).finalize()),
                State::AfterOpen3(x) => (State::AfterOpen3(here), State::AfterOpen3(x).finalize()),
                other => (State::AfterOpen1(here), other.finalize()),
            }
        } else if c == ']' {
            match self {
                State::AfterClose1(q) => (State::AfterClose2(pos2(q.start, next)), None),
                State::AfterClose2(x) => (State::AfterClose3(here), State::AfterClose2(x).finalize()),
                State::AfterClose3(x) => (State::AfterClose3(here), State::AfterClose3(x).finalize()),
                other => (State::AfterClose1(here), other.finalize()),
            }
        } else if c == '|' {
            (State::AfterPipe(here), self.finalize())
        } else {
            match self {
                State::AfterSymbol(x, s) => {
                    let mut s = s;
                    push_char(&mut s, c);
                    (State::AfterSymbol(pos2(x.start, next), s), None)
                },
                other => {
                    let mut s = String::new();
                    push_char(&mut s, c);
                    proof {
                        assert(s@ =~= seq![c]);
                    }
                    (State::AfterSymbol(here, s), other.finalize())
                },
            }
        }
    }
}

/// A one-pass tokenizer over a source text, started at a given point.
pub struct TokenStream {
    source: Vec<char>,
    index: usize,
    cursor: Point,
    state: State,
}

impl View for TokenStream {
    type V = Scan;

    closed spec fn view(&self) -> Scan {
        Scan {
            rest: self.source@.subrange(self.index as int, self.source@.len() as int),
            cursor: self.cursor,
            pending: self.state@,
        }
    }
}

impl TokenStream {
    /// The stream's coordinates stay within `usize` up to the end of its input.
    pub closed spec fn wf(&self) -> bool {
        &&& self.index <= self.source@.len()
        &&& fits(self.cursor, self@.rest)
    }

    /// A tokenizer over `source` whose first character is at `point`.
    pub fn new_at(source: &str, point: Point) -> (r: TokenStream)
        requires
            fits(point, source@),
        ensures
            r.wf(),
            r@ == (Scan { rest: source@, cursor: point, pending: Pending::Default }),
    {
        let chars = chars_of(source);
        let r = TokenStream { source: chars, index: 0, cursor: point, state: State::Default };
        proof {
            assert(r@.rest =~= source@);
        }
        r
    }

    /// The next token with its span, or `None` once the input is used up.
    pub fn next(&mut self) -> (r: Option<(Token, Position)>)
        requires
            old(self).wf(),
        ensures
            final(self).wf(),
            item_view(r) == scan(old(self)@).0,
            final(self)@ == scan(old(self)@).1,
    {
        while self.index < self.source.len()
            invariant
                self.wf(),
                scan(self@) == scan(old(self)@),
            decreases self.source@.len() - self.index,
        {
            let c = self.source[self.index];
            let ghost before = self@;
            proof {
                lemma_fits_advance(self.cursor, before.rest);
            }
            let cursor = self.cursor;
            let mut state = State::Default;
            core::mem::swap(&mut state, &mut self.state);
            let mut next = cursor;
            advance(&mut next, c);
            let (state, item) = state.transition(c, cursor, next);
            self.state = state;
            self.cursor = next;
            self.index = self.index + 1;
            proof {
                assert(self@.rest =~= before.rest.subrange(1, before.rest.len() as int));
            }
            if item.is_some() {
                return item;
            }
        }
        proof {
            assert(self@.rest.len() == 0);
        }
        let mut state = State::Default;
        core::mem::swap(&mut state, &mut self.state);
        state.finalize()
    }

    /// Every remaining token with its span, in order.
    pub fn collect(self) -> (r: Vec<(Token, Position)>)
        requires
            self.wf(),
        ensures
            r@.map_values(|x: (Token, Position)| (x.0@, x.1)) == all_tokens(self@),
    {
        let mut stream = self;
        let mut out: Vec<(Token, Position)> = Vec::new();
        loop
            invariant
                stream.wf(),
                out@.map_values(|x: (Token, Position)| (x.0@, x.1)) + all_tokens(stream@)
                    == all_tokens(self@),
            decreases measure(stream@),
        {
            let ghost before = stream@;
            proof {
                lemma_scan_progress(before);
            }
            match stream.next() {
                Some(t) => {
                    let ghost ov = out@.map_values(|x: (Token, Position)| (x.0@, x.1));
                    out.push(t);
                    proof {
                        let tv = (t.0@, t.1);
                        assert(all_tokens(before) == seq![tv] + all_tokens(stream@));
                        assert(out@.map_values(|x: (Token, Position)| (x.0@, x.1)) =~= ov.push(tv));
                        assert(ov.push(tv) + all_tokens(stream@) =~= ov + (seq![tv] + all_tokens(stream@)));
                    }
                },
                None => {
                    proof {
                        assert(all_tokens(before) =~= Seq::<Item>::empty());
                        assert(out@.map_values(|x: (Token, Position)| (x.0@, x.1)) + Seq::<Item>::empty()
                            =~= out@.map_values(|x: (Token, Position)| (x.0@, x.1)));
                    }
                    return out;
                },
            }
        }
    }
}

} // verus!
