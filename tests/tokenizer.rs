use yew_markdown::position::{advance, utf8_width, Point, Position};
use yew_markdown::token::{Token, TokenStream};
use yew_markdown::wikilink::{parse_wikilinks, Inline};

fn tokens(source: &str) -> Vec<(Token, Position)> {
    TokenStream::new_at(source, Point::new(1, 1, 0)).collect()
}

fn joined(source: &str) -> String {
    tokens(source).iter().map(|(t, _)| t.to_string()).collect()
}

#[test]
fn test_stream() {
    let stream = tokens("[abc] [[ d e]]\nb");
    assert_eq!(
        stream,
        vec![
            (Token::LBra, Position::new(1, 1, 0, 1, 2, 1)),
            (Token::Word("abc".into()), Position::new(1, 2, 1, 1, 5, 4)),
            (Token::RBra, Position::new(1, 5, 4, 1, 6, 5)),
            (Token::Word(" ".into()), Position::new(1, 6, 5, 1, 7, 6)),
            (Token::LLBra, Position::new(1, 7, 6, 1, 9, 8)),
            (Token::Word(" d e".into()), Position::new(1, 9, 8, 1, 13, 12)),
            (Token::RRBra, Position::new(1, 13, 12, 1, 15, 14)),
            (Token::NewLine, Position::new(1, 15, 14, 2, 1, 15)),
            (Token::Word("b".into()), Position::new(2, 1, 15, 2, 2, 16)),
        ]
    );
}

#[test]
fn test_stream_double_bracket() {
    let stream = tokens("[[[");
    assert_eq!(
        stream,
        vec![
            (Token::LLBra, Position::new(1, 1, 0, 1, 3, 2)),
            (Token::LBra, Position::new(1, 3, 2, 1, 4, 3)),
        ]
    );
}

#[test]
fn triple_close_bracket_splits_like_open() {
    let stream = tokens("]]]");
    assert_eq!(
        stream,
        vec![
            (Token::RRBra, Position::new(1, 1, 0, 1, 3, 2)),
            (Token::RBra, Position::new(1, 3, 2, 1, 4, 3)),
        ]
    );
}

#[test]
fn pipe_finalizes_word() {
    let stream = tokens("a|b");
    assert_eq!(
        stream,
        vec![
            (Token::Word("a".into()), Position::new(1, 1, 0, 1, 2, 1)),
            (Token::Pipe, Position::new(1, 2, 1, 1, 3, 2)),
            (Token::Word("b".into()), Position::new(1, 3, 2, 1, 4, 3)),
        ]
    );
}

#[test]
fn empty_input_yields_nothing() {
    assert!(tokens("").is_empty());
    let mut s = TokenStream::new_at("", Point::new(1, 1, 0));
    assert!(s.next().is_none());
    assert!(s.next().is_none());
}

#[test]
fn next_is_one_shot() {
    let mut s = TokenStream::new_at("[x", Point::new(1, 1, 0));
    assert_eq!(s.next(), Some((Token::LBra, Position::new(1, 1, 0, 1, 2, 1))));
    assert_eq!(s.next(), Some((Token::Word("x".into()), Position::new(1, 2, 1, 1, 3, 2))));
    assert_eq!(s.next(), None);
}

#[test]
fn round_trip_reproduces_input() {
    for source in ["[abc] [[ d e]]\nb", "[[[", "a|b]]c\n[x", "]]]]] [[ [", "héllo [[wörld|x]]\n\n", ""] {
        assert_eq!(joined(source), source);
    }
}

#[test]
fn carriage_returns_are_dropped() {
    assert_eq!(joined("a\r\nb\r"), "a\nb");
    let stream = tokens("a\r\nb");
    assert_eq!(
        stream,
        vec![
            (Token::Word("a".into()), Position::new(1, 1, 0, 1, 2, 1)),
            (Token::NewLine, Position::new(1, 3, 2, 2, 1, 3)),
            (Token::Word("b".into()), Position::new(2, 1, 3, 2, 2, 4)),
        ]
    );
}

#[test]
fn start_point_is_respected() {
    let stream: Vec<(Token, Position)> = TokenStream::new_at("|", Point::new(3, 7, 40)).collect();
    assert_eq!(stream, vec![(Token::Pipe, Position::new(3, 7, 40, 3, 8, 41))]);
}

#[test]
fn point_advancement() {
    let mut p = Point::new(1, 1, 0);
    advance(&mut p, 'a');
    assert_eq!(p, Point::new(1, 2, 1));
    advance(&mut p, '\n');
    assert_eq!(p, Point::new(2, 1, 2));
    advance(&mut p, 'b');
    assert_eq!(p, Point::new(2, 2, 3));
}

#[test]
fn multibyte_characters_advance_by_their_width() {
    assert_eq!(utf8_width('a'), 1);
    assert_eq!(utf8_width('é'), 2);
    assert_eq!(utf8_width('€'), 3);
    assert_eq!(utf8_width('😀'), 4);
    let mut p = Point::new(1, 1, 0);
    advance(&mut p, 'é');
    assert_eq!(p, Point::new(1, 3, 2));
    let stream = tokens("é[");
    assert_eq!(stream[1], (Token::LBra, Position::new(1, 3, 2, 1, 4, 3)));
}

#[test]
fn token_texts() {
    assert_eq!(Token::Pipe.to_string(), "|");
    assert_eq!(Token::RBra.to_string(), "]");
    assert_eq!(Token::LBra.to_string(), "[");
    assert_eq!(Token::RRBra.to_string(), "]]");
    assert_eq!(Token::LLBra.to_string(), "[[");
    assert_eq!(Token::NewLine.to_string(), "\n");
    assert_eq!(Token::Word("ab c".into()).to_string(), "ab c");
}

#[test]
fn wikilinks_are_recognised() {
    let pieces = parse_wikilinks("see [[Page]] or [[Target|Alias]]", Point::new(1, 1, 0));
    assert_eq!(
        pieces,
        vec![
            Inline::Text("see ".into(), Position::new(1, 1, 0, 1, 5, 4)),
            Inline::WikiLink {
                target: "Page".into(),
                alias: None,
                position: Position::new(1, 5, 4, 1, 13, 12),
            },
            Inline::Text(" or ".into(), Position::new(1, 13, 12, 1, 17, 16)),
            Inline::WikiLink {
                target: "Target".into(),
                alias: Some("Alias".into()),
                position: Position::new(1, 17, 16, 1, 33, 32),
            },
        ]
    );
}

#[test]
fn text_pieces_are_joined() {
    let pieces = parse_wikilinks("a [b] | c]]", Point::new(1, 1, 0));
    assert_eq!(pieces, vec![Inline::Text("a [b] | c]]".into(), Position::new(1, 1, 0, 1, 12, 11))]);
}

#[test]
fn broken_wikilinks_stay_text() {
    let pieces = parse_wikilinks("[[a", Point::new(1, 1, 0));
    assert_eq!(
        pieces,
        vec![Inline::Text("[[a".into(), Position::new(1, 1, 0, 1, 4, 3))]
    );
}

#[test]
fn spans_tile_the_source() {
    for source in ["[abc] [[ d e]]\nb", "héllo [[wörld|x]]\n", "a"] {
        let stream = tokens(source);
        assert_eq!(stream[0].1.start.offset, 0);
        for w in stream.windows(2) {
            assert_eq!(w[0].1.end, w[1].1.start);
        }
        for (t, p) in stream.iter() {
            assert!(p.start.offset < p.end.offset);
            assert_eq!(&source[p.start.offset..p.end.offset], t.to_string());
        }
        assert_eq!(stream.last().unwrap().1.end.offset, source.len());
    }
}
