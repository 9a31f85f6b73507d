//! Wikilinks, `[[target]]` and `[[target|alias]]`, recognised in the tokens
//! of a text.
use vstd::prelude::*;
use crate::position::{fits, pos2, span, Point, Position};
use crate::token::{all_tokens, lexeme_text, Item, Lexeme, Pending, Scan, Token, TokenStream};

verus! {

/// A piece of inline text: plain text, or a wikilink.
#[derive(Clone, Debug, PartialEq, Eq)]
pub enum Inline {
    Text(String, Position),
    WikiLink { target: String, alias: Option<String>, position: Position },
}

/// The mathematical value of an [`Inline`].
pub enum InlineView {
    Text(Seq<char>, Position),
    WikiLink { target: Seq<char>, alias: Option<Seq<char>>, position: Position },
}

impl View for Inline {
    type V = InlineView;

    open spec fn view(&self) -> InlineView {
        match self {
            Inline::Text(s, p) => InlineView::Text(s@, *p),
            Inline::WikiLink { target, alias, position } => InlineView::WikiLink {
                target: target@,
                alias: match alias {
                    Some(a) => Some(a@),
                    None => None,
                },
                position: *position,
            },
        }
    }
}

/// `acc` followed by the text `t` at `pos`, merged into the last piece where
/// that is text too.
pub open spec fn with_text(acc: Seq<InlineView>, t: Seq<char>, pos: Position) -> Seq<InlineView> {
    if acc.len() > 0 && acc.last() is Text {
        let (u, q) = (acc.last()->Text_0, acc.last()->Text_1);
        acc.update(acc.len() - 1, InlineView::Text(u + t, span(q.start, pos.end)))
    } else {
        acc.push(InlineView::Text(t, pos))
    }
}

/// The pieces of the tokens `ts[i..]` after the pieces `acc`: `[[`, a word
/// and `]]` make a link; `[[`, a word, `|`, a word and `]]` make a link
/// with an alias; any other token is text, joined to the text before it.
pub open spec fn pieces(ts: Seq<Item>, i: int, acc: Seq<InlineView>) -> Seq<InlineView>
    decreases ts.len() - i,
{
    if i < 0 || i >= ts.len() {
        acc
    } else if i + 2 < ts.len() && ts[i].0 is LLBra && ts[i + 1].0 is Word && ts[i + 2].0 is RRBra {
        pieces(
            ts,
            i + 3,
            acc.push(
                InlineView::WikiLink {
                    target: ts[i + 1].0->Word_0,
                    alias: None,
                    position: span(ts[i].1.start, ts[i + 2].1.end),
                },
            ),
        )
    } else if i + 4 < ts.len() && ts[i].0 is LLBra && ts[i + 1].0 is Word && ts[i + 2].0 is Pipe
        && ts[i + 3].0 is Word && ts[i + 4].0 is RRBra {
        pieces(
            ts,
            i + 5,
            acc.push(
                InlineView::WikiLink {
                    target: ts[i + 1].0->Word_0,
                    alias: Some(ts[i + 3].0->Word_0),
                    position: span(ts[i].1.start, ts[i + 4].1.end),
                },
            ),
        )
    } else {
        pieces(ts, i + 1, with_text(acc, lexeme_text(ts[i].0), ts[i].1))
    }
}

/// The pieces of `text`, whose first character is at `start`.
pub open spec fn text_pieces(text: Seq<char>, start: Point) -> Seq<InlineView> {
    pieces(all_tokens(Scan { rest: text, cursor: start, pending: Pending::Default }), 0, seq![])
}

/// The mathematical value of a vector of tokens.
pub open spec fn tokens_view(v: Seq<(Token, Position)>) -> Seq<Item> {
    v.map_values(|x: (Token, Position)| (x.0@, x.1))
}

/// The mathematical value of a vector of pieces.
pub open spec fn inlines_view(v: Seq<Inline>) -> Seq<InlineView> {
    v.map_values(|x: Inline| x@)
}

fn is_llbra(t: &Token) -> (r: bool)
    ensures
        r == t@ is LLBra,
{
    match t {
        Token::LLBra => true,
        _ => false,
    }
}

fn is_rrbra(t: &Token) -> (r: bool)
    ensures
        r == t@ is RRBra,
{
    match t {
        Token::RRBra => true,
        _ => false,
    }
}

fn is_pipe(t: &Token) -> (r: bool)
    ensures
        r == t@ is Pipe,
{
    match t {
        Token::Pipe => true,
        _ => false,
    }
}

fn word_of(t: &Token) -> (r: Option<String>)
    ensures
        match r {
            Some(w) => t@ == Lexeme::Word(w@),
            None => !(t@ is Word),
        },
{
    match t {
        Token::Word(w) => Some(w.clone()),
        _ => None,
    }
}

/// Adds the text `t` at `pos` after the pieces `out`, joined to the last one
/// where that is text too.
fn push_text(out: &mut Vec<Inline>, t: String, pos: Position)
    ensures
        inlines_view(final(out)@) == with_text(inlines_view(old(out)@), t@, pos),
{
    let ghost before = inlines_view(out@);
    let n = out.len();
    let last_is_text = n > 0 && match &out[n - 1] {
        Inline::Text(_, _) => true,
        _ => false,
    };
    if last_is_text {
        match out.pop() {
            Some(Inline::Text(mut u, q)) => {
                u.append(t.as_str());
                let merged = Inline::Text(u, pos2(q.start, pos.end));
                out.push(merged);
                proof {
                    assert(inlines_view(out@) =~= with_text(before, t@, pos));
                }
            },
            Some(other) => {
                out.push(other);
            },
            None => {},
        }
    } else {
        let item = Inline::Text(t, pos);
        out.push(item);
        proof {
            assert(inlines_view(out@) =~= with_text(before, t@, pos));
        }
    }
}

/// The text pieces and wikilinks of `text`, whose first character is at
/// `start`, with their spans.
pub fn parse_wikilinks(text: &str, start: Point) -> (r: Vec<Inline>)
    requires
        fits(start, text@),
    ensures
        inlines_view(r@) == text_pieces(text@, start),
{
    let ts = TokenStream::new_at(text, start).collect();
    let ghost tv = tokens_view(ts@);
    let mut out: Vec<Inline> = Vec::new();
    let mut i: usize = 0;
    proof {
        assert(inlines_view(out@) =~= Seq::<InlineView>::empty());
    }
    while i < ts.len()
        invariant
            i <= ts@.len(),
            tv == tokens_view(ts@),
            pieces(tv, i as int, inlines_view(out@)) == pieces(tv, 0, seq![]),
        decreases ts@.len() - i,
    {
        let ghost before = inlines_view(out@);
        let n = ts.len();
        let mut done = false;
        if n - i > 2 && is_llbra(&ts[i].0) && is_rrbra(&ts[i + 2].0) {
            match word_of(&ts[i + 1].0) {
                Some(w) => {
                    let item = Inline::WikiLink {
                        target: w,
                        alias: None,
                        position: pos2(ts[i].1.start, ts[i + 2].1.end),
                    };
                    out.push(item);
                    proof {
                        assert(inlines_view(out@) =~= before.push(item@));
                    }
                    i = i + 3;
                    done = true;
                },
                None => {},
            }
        }
        if !done && n - i > 4 && is_llbra(&ts[i].0) && is_pipe(&ts[i + 2].0) && is_rrbra(&ts[i + 4].0) {
            match (word_of(&ts[i + 1].0), word_of(&ts[i + 3].0)) {
                (Some(w), Some(a)) => {
                    proof {
                        assert(!(tv[i + 2].0 is RRBra));
                    }
                    let item = Inline::WikiLink {
                        target: w,
                        alias: Some(a),
                        position: pos2(ts[i].1.start, ts[i + 4].1.end),
                    };
                    out.push(item);
                    proof {
                        assert(inlines_view(out@) =~= before.push(item@));
                    }
                    i = i + 5;
                    done = true;
                },
                _ => {},
            }
        }
        if !done {
            push_text(&mut out, ts[i].0.to_string(), ts[i].1);
            i = i + 1;
        }
    }
    out
}

} // verus!
