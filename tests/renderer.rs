use yew_markdown::event::{
    as_closing_tag, Alignment, ByteRange, CodeBlockKind, Event, HeadingLevel, LinkType, MathMode, Tag,
    TagEnd,
};
use yew_markdown::html::{align_string, Document, Element, HtmlError, Node, NodeKind};
use yew_markdown::render::{render, render_to_string, ContextError, RenderContext, Renderer, StructureError};

fn r(start: usize, end: usize) -> ByteRange {
    ByteRange { start, end }
}

fn context() -> RenderContext {
    RenderContext::new(None, false, false, vec![]).ok().unwrap()
}

fn text(s: &str) -> Event {
    Event::Text(s.to_string())
}

fn kinds(d: &Document) -> Vec<NodeKind> {
    d.nodes.iter().map(|n| n.kind.clone()).collect()
}

#[test]
fn paragraph_nests_its_text() {
    let events = vec![
        (Event::Start(Tag::Paragraph), r(0, 3)),
        (text("hi"), r(0, 2)),
        (Event::End(TagEnd::Paragraph), r(0, 3)),
    ];
    let d = render(&context(), &events).ok().unwrap();
    assert_eq!(
        d.nodes,
        vec![
            Node { kind: NodeKind::Text("hi".into()), children: vec![], range: Some(r(0, 2)) },
            Node {
                kind: NodeKind::Element(Element::Paragraph),
                children: vec![0],
                range: Some(r(0, 3)),
            },
        ]
    );
    assert_eq!(d.roots, vec![1]);
}

#[test]
fn every_node_reports_its_event_range() {
    let events = vec![
        (Event::Start(Tag::Heading(HeadingLevel::H2)), r(0, 9)),
        (text("Title"), r(3, 8)),
        (Event::End(TagEnd::Heading(HeadingLevel::H2)), r(0, 9)),
        (Event::Rule, r(10, 13)),
        (Event::Start(Tag::List(None)), r(14, 30)),
        (Event::Start(Tag::Item), r(14, 22)),
        (Event::TaskListMarker(true), r(16, 19)),
        (Event::Code("x".into()), r(20, 22)),
        (Event::End(TagEnd::Item), r(14, 22)),
        (Event::End(TagEnd::List(false)), r(14, 30)),
    ];
    let d = render(&context(), &events).ok().unwrap();
    let ranges: Vec<Option<ByteRange>> = d.nodes.iter().map(|n| n.range).collect();
    assert_eq!(
        ranges,
        vec![
            Some(r(3, 8)),
            Some(r(0, 9)),
            Some(r(10, 13)),
            Some(r(16, 19)),
            Some(r(20, 22)),
            Some(r(14, 22)),
            Some(r(14, 30)),
        ]
    );
    assert_eq!(
        kinds(&d),
        vec![
            NodeKind::Text("Title".into()),
            NodeKind::Element(Element::Heading(HeadingLevel::H2)),
            NodeKind::Element(Element::Hr),
            NodeKind::Element(Element::Checkbox(true)),
            NodeKind::InlineCode("x".into()),
            NodeKind::Element(Element::Li),
            NodeKind::Element(Element::Ul),
        ]
    );
    assert_eq!(d.roots, vec![1, 2, 6]);
}

#[test]
fn ordered_list_keeps_its_start() {
    let events = vec![
        (Event::Start(Tag::List(Some(3))), r(0, 5)),
        (Event::End(TagEnd::List(true)), r(0, 5)),
    ];
    let d = render(&context(), &events).ok().unwrap();
    assert_eq!(kinds(&d), vec![NodeKind::Element(Element::Ol(3))]);
}

fn table_events(rows: usize) -> Vec<(Event, ByteRange)> {
    let mut events = vec![
        (Event::Start(Tag::Table(vec![Alignment::Left, Alignment::Center, Alignment::Right])), r(0, 100)),
        (Event::Start(Tag::TableHead), r(0, 10)),
    ];
    for _ in 0..3 {
        events.push((Event::Start(Tag::TableCell), r(1, 2)));
        events.push((text("h"), r(1, 2)));
        events.push((Event::End(TagEnd::TableCell), r(1, 2)));
    }
    events.push((Event::End(TagEnd::TableHead), r(0, 10)));
    for _ in 0..rows {
        events.push((Event::Start(Tag::TableRow), r(11, 20)));
        for _ in 0..3 {
            events.push((Event::Start(Tag::TableCell), r(12, 13)));
            events.push((text("c"), r(12, 13)));
            events.push((Event::End(TagEnd::TableCell), r(12, 13)));
        }
        events.push((Event::End(TagEnd::TableRow), r(11, 20)));
    }
    events.push((Event::End(TagEnd::Table), r(0, 100)));
    events
}

#[test]
fn table_cells_take_their_column_alignment() {
    for rows in [1, 2, 5] {
        let d = render(&context(), &table_events(rows)).ok().unwrap();
        let mut groups = 0;
        for n in d.nodes.iter() {
            if matches!(n.kind, NodeKind::Element(Element::Trow) | NodeKind::Element(Element::Thead)) {
                groups += 1;
                let aligns: Vec<NodeKind> = n.children.iter().map(|c| d.nodes[*c].kind.clone()).collect();
                assert_eq!(
                    aligns,
                    vec![
                        NodeKind::Element(Element::Tcell(Alignment::Left)),
                        NodeKind::Element(Element::Tcell(Alignment::Center)),
                        NodeKind::Element(Element::Tcell(Alignment::Right)),
                    ]
                );
            }
        }
        assert_eq!(groups, rows + 1);
    }
}

#[test]
fn extra_cell_breaks_the_structure() {
    let events = vec![
        (Event::Start(Tag::Table(vec![Alignment::Unaligned])), r(0, 9)),
        (Event::Start(Tag::TableRow), r(0, 9)),
        (Event::Start(Tag::TableCell), r(0, 1)),
        (Event::End(TagEnd::TableCell), r(0, 1)),
        (Event::Start(Tag::TableCell), r(2, 3)),
    ];
    assert_eq!(render(&context(), &events).err(), Some(StructureError::CellOutsideTable));
    let outside = vec![(Event::Start(Tag::TableCell), r(0, 1))];
    assert_eq!(render(&context(), &outside).err(), Some(StructureError::CellOutsideTable));
}

#[test]
fn mismatched_closing_tag_is_fatal() {
    let events = vec![
        (Event::Start(Tag::Paragraph), r(0, 3)),
        (Event::End(TagEnd::Emphasis), r(0, 3)),
    ];
    assert_eq!(
        render(&context(), &events).err(),
        Some(StructureError::MismatchedEnd(TagEnd::Paragraph, TagEnd::Emphasis))
    );
}

#[test]
fn closing_tag_at_top_level_is_fatal() {
    let events = vec![(Event::End(TagEnd::Strong), r(0, 3))];
    assert_eq!(render(&context(), &events).err(), Some(StructureError::UnexpectedEnd(TagEnd::Strong)));
}

#[test]
fn unclosed_container_is_fatal() {
    let events = vec![(Event::Start(Tag::BlockQuote), r(0, 3))];
    assert_eq!(render(&context(), &events).err(), Some(StructureError::Unclosed));
}

#[test]
fn code_block_needs_exactly_one_text() {
    let empty = vec![
        (Event::Start(Tag::CodeBlock(CodeBlockKind::Indented)), r(0, 4)),
        (Event::End(TagEnd::CodeBlock), r(0, 4)),
    ];
    assert_eq!(render(&context(), &empty).err(), Some(StructureError::UnexpectedEvent));
    let twice = vec![
        (Event::Start(Tag::CodeBlock(CodeBlockKind::Indented)), r(0, 4)),
        (text("a"), r(0, 1)),
        (text("b"), r(1, 2)),
    ];
    assert_eq!(render(&context(), &twice).err(), Some(StructureError::UnexpectedEvent));
    let html_in_code = vec![
        (Event::Start(Tag::CodeBlock(CodeBlockKind::Indented)), r(0, 4)),
        (Event::Html("<b>".into()), r(0, 1)),
    ];
    assert_eq!(render(&context(), &html_in_code).err(), Some(StructureError::UnexpectedEvent));
}

#[test]
fn indented_code_block_is_kept_as_text() {
    let events = vec![
        (Event::Start(Tag::CodeBlock(CodeBlockKind::Indented)), r(0, 9)),
        (text("let x;\n"), r(4, 9)),
        (Event::End(TagEnd::CodeBlock), r(0, 9)),
    ];
    let d = render(&context(), &events).ok().unwrap();
    assert_eq!(kinds(&d), vec![NodeKind::CodeBlock("let x;\n".into())]);
    assert_eq!(d.nodes[0].range, Some(r(0, 9)));
}

#[test]
fn fenced_code_block_is_highlighted() {
    let events = vec![
        (Event::Start(Tag::CodeBlock(CodeBlockKind::Fenced("rust".into()))), r(0, 30)),
        (text("fn main() {}\n"), r(8, 21)),
        (Event::End(TagEnd::CodeBlock), r(0, 30)),
    ];
    let d = render(&context(), &events).ok().unwrap();
    match &d.nodes[0].kind {
        NodeKind::InnerHtml(Element::Div, markup) => {
            assert!(markup.contains("<pre"));
            assert!(markup.contains("main"));
            assert_ne!(markup, "fn main() {}\n");
        }
        other => panic!("not highlighted: {other:?}"),
    }
}

#[test]
fn unknown_language_is_not_highlighted() {
    let events = vec![
        (Event::Start(Tag::CodeBlock(CodeBlockKind::Fenced("no-such-language".into()))), r(0, 30)),
        (text("x\n"), r(8, 10)),
        (Event::End(TagEnd::CodeBlock), r(0, 30)),
    ];
    let d = render(&context(), &events).ok().unwrap();
    assert_eq!(kinds(&d), vec![NodeKind::CodeBlock("x\n".into())]);
}

#[test]
fn html_block_and_front_matter() {
    let events = vec![
        (Event::Start(Tag::MetadataBlock), r(0, 12)),
        (text("title: x\n"), r(4, 13)),
        (Event::End(TagEnd::MetadataBlock), r(0, 12)),
        (Event::Start(Tag::HtmlBlock), r(13, 30)),
        (Event::Html("<div>raw</div>\n".into()), r(13, 28)),
        (Event::End(TagEnd::HtmlBlock), r(13, 30)),
    ];
    let d = render(&context(), &events).ok().unwrap();
    assert_eq!(
        kinds(&d),
        vec![
            NodeKind::Frontmatter("title: x\n".into()),
            NodeKind::InnerHtml(Element::Div, "<div>raw</div>\n".into()),
        ]
    );
}

#[test]
fn maths_compile_with_a_stable_class() {
    let events = vec![
        (Event::Math(MathMode::Inline, "x^2".into()), r(0, 5)),
        (Event::Math(MathMode::Display, "\\frac{1}{2}".into()), r(6, 20)),
    ];
    let d = render(&context(), &events).ok().unwrap();
    match (&d.nodes[0].kind, &d.nodes[1].kind) {
        (NodeKind::Math(MathMode::Inline, a), NodeKind::Math(MathMode::Display, b)) => {
            assert!(a.contains("katex"));
            assert!(b.contains("katex"));
        }
        other => panic!("unexpected: {other:?}"),
    }
    assert_eq!(MathMode::Inline.class_name(), "math-inline");
    assert_eq!(MathMode::Display.class_name(), "math-flow");
    assert!(MathMode::Display.is_block());
    assert!(!MathMode::Inline.is_block());
}

#[test]
fn invalid_maths_is_a_local_error() {
    let events = vec![
        (Event::Math(MathMode::Inline, "\\frac{".into()), r(0, 7)),
        (text("after"), r(8, 13)),
    ];
    let d = render(&context(), &events).ok().unwrap();
    assert_eq!(
        kinds(&d),
        vec![NodeKind::Error(HtmlError::InvalidMath), NodeKind::Text("after".into())]
    );
}

fn link_events(inner: Vec<(Event, ByteRange)>) -> Vec<(Event, ByteRange)> {
    let mut events = vec![(
        Event::Start(Tag::Link {
            link_type: LinkType::Inline,
            dest_url: "https://example.org".into(),
            title: "t".into(),
        }),
        r(0, 30),
    )];
    events.extend(inner);
    events.push((Event::End(TagEnd::Link), r(0, 30)));
    events
}

#[test]
fn link_with_plain_text_is_an_anchor() {
    let d = render(&context(), &link_events(vec![(text("here"), r(1, 5))])).ok().unwrap();
    assert_eq!(
        kinds(&d),
        vec![NodeKind::Text("here".into()), NodeKind::Anchor("https://example.org".into())]
    );
    assert_eq!(d.nodes[1].children, vec![0]);
}

#[test]
fn link_with_markup_is_a_local_error() {
    let inner = vec![
        (Event::Start(Tag::Emphasis), r(1, 7)),
        (text("here"), r(2, 6)),
        (Event::End(TagEnd::Emphasis), r(1, 7)),
    ];
    let d = render(&context(), &link_events(inner)).ok().unwrap();
    assert_eq!(d.nodes[2].kind, NodeKind::Error(HtmlError::LinkContent));
    assert_eq!(d.roots, vec![2]);
}

#[test]
fn links_go_to_the_custom_renderer() {
    let ctx = RenderContext::new(None, true, false, vec![]).ok().unwrap();
    assert!(ctx.has_custom_links());
    let inner = vec![
        (Event::Start(Tag::Emphasis), r(1, 7)),
        (text("here"), r(2, 6)),
        (Event::End(TagEnd::Emphasis), r(1, 7)),
    ];
    let d = render(&ctx, &link_events(inner)).ok().unwrap();
    assert_eq!(
        d.nodes[2].kind,
        NodeKind::Link {
            link_type: LinkType::Inline,
            url: "https://example.org".into(),
            title: "t".into(),
            image: false,
        }
    );
    assert_eq!(d.nodes[2].children, vec![1]);
}

#[test]
fn image_uses_title_as_alternative_text() {
    let events = vec![
        (
            Event::Start(Tag::Image {
                link_type: LinkType::Inline,
                dest_url: "a.png".into(),
                title: "A picture".into(),
            }),
            r(0, 20),
        ),
        (text("alt"), r(2, 5)),
        (Event::End(TagEnd::Image), r(0, 20)),
    ];
    let d = render(&context(), &events).ok().unwrap();
    assert_eq!(d.nodes[1].kind, NodeKind::Image("a.png".into(), "A picture".into()));
    assert!(d.nodes[1].children.is_empty());
}

#[test]
fn footnotes_are_local_errors() {
    let events = vec![
        (Event::FootnoteReference("1".into()), r(0, 4)),
        (Event::Start(Tag::FootnoteDefinition("1".into())), r(5, 20)),
        (Event::Start(Tag::Paragraph), r(10, 20)),
        (text("note"), r(10, 14)),
        (Event::End(TagEnd::Paragraph), r(10, 20)),
        (Event::End(TagEnd::FootnoteDefinition), r(5, 20)),
        (text("rest"), r(21, 25)),
    ];
    let d = render(&context(), &events).ok().unwrap();
    let root_kinds: Vec<NodeKind> = d.roots.iter().map(|i| d.nodes[*i].kind.clone()).collect();
    assert_eq!(
        root_kinds,
        vec![
            NodeKind::Error(HtmlError::FootnoteReference),
            NodeKind::Error(HtmlError::FootnoteDefinition),
            NodeKind::Text("rest".into()),
        ]
    );
}

#[test]
fn breaks() {
    let events = vec![
        (text("a"), r(0, 1)),
        (Event::SoftBreak, r(1, 2)),
        (text("b"), r(2, 3)),
        (Event::HardBreak, r(3, 6)),
    ];
    let d = render(&context(), &events).ok().unwrap();
    assert_eq!(
        kinds(&d),
        vec![
            NodeKind::Text("a".into()),
            NodeKind::Text("b".into()),
            NodeKind::Element(Element::Br),
        ]
    );
}

#[test]
fn rendering_twice_gives_the_same_tree() {
    let events = table_events(2);
    let ctx = context();
    assert_eq!(render(&ctx, &events), render(&ctx, &events));
}

#[test]
fn step_by_step_matches_render() {
    let events = link_events(vec![(text("x"), r(1, 2))]);
    let ctx = context();
    let mut renderer = Renderer::new(&ctx);
    for (e, range) in events.iter() {
        assert!(renderer.step(e, *range).is_ok());
    }
    assert_eq!(renderer.finish(), render(&ctx, &events));
}

#[test]
fn unknown_theme_fails() {
    assert_eq!(
        RenderContext::new(Some("no such theme".into()), false, false, vec![]).err(),
        Some(ContextError::UnknownTheme)
    );
    assert!(RenderContext::new(Some("InspiredGitHub".into()), false, false, vec![]).is_ok());
}

#[test]
fn closing_tags() {
    assert_eq!(as_closing_tag(&Tag::List(Some(1))), TagEnd::List(true));
    assert_eq!(as_closing_tag(&Tag::List(None)), TagEnd::List(false));
    assert_eq!(as_closing_tag(&Tag::Heading(HeadingLevel::H3)), TagEnd::Heading(HeadingLevel::H3));
    assert_eq!(as_closing_tag(&Tag::Table(vec![])), TagEnd::Table);
}

#[test]
fn alignment_styles() {
    assert_eq!(align_string(Alignment::Left), "text-align: left");
    assert_eq!(align_string(Alignment::Right), "text-align: right");
    assert_eq!(align_string(Alignment::Center), "text-align: center");
    assert_eq!(align_string(Alignment::Unaligned), "");
}

#[test]
fn heading_depths() {
    assert_eq!(HeadingLevel::H1.depth(), 1);
    assert_eq!(HeadingLevel::H6.depth(), 6);
    assert_eq!(HeadingLevel::from_depth(4), Some(HeadingLevel::H4));
    assert_eq!(HeadingLevel::from_depth(0), None);
    assert_eq!(HeadingLevel::from_depth(7), None);
}

#[test]
fn error_messages() {
    assert_eq!(HtmlError::FootnoteReference.to_string(), "do not support footnote refs yet");
    assert_eq!(HtmlError::FootnoteDefinition.to_string(), "footnote: not implemented");
    assert_eq!(HtmlError::InvalidMath.to_string(), "invalid math");
    assert_eq!(HtmlError::LinkContent.to_string(), "markdown content in a link is not allowed");
    assert_eq!(HtmlError::UnknownComponent.to_string(), "unknown component");
}

#[test]
fn wikilinks_in_text_become_links() {
    let ctx = RenderContext::new(None, false, true, vec![]).ok().unwrap();
    let events = vec![(text("see [[Page|the page]] now"), r(10, 35))];
    let d = render(&ctx, &events).ok().unwrap();
    assert_eq!(
        kinds(&d),
        vec![
            NodeKind::Text("see ".into()),
            NodeKind::WikiLink { target: "Page".into(), alias: Some("the page".into()) },
            NodeKind::Text(" now".into()),
        ]
    );
    assert!(d.nodes.iter().all(|n| n.range == Some(r(10, 35))));
    assert_eq!(d.roots, vec![0, 1, 2]);
}

#[test]
fn wikilinks_are_left_alone_when_not_asked_for() {
    let events = vec![(text("see [[Page]]"), r(0, 12))];
    let d = render(&context(), &events).ok().unwrap();
    assert_eq!(kinds(&d), vec![NodeKind::Text("see [[Page]]".into())]);
}

#[test]
fn formula_to_markup() {
    let markup = render_to_string("x^2");
    assert!(markup.contains("katex"));
    assert_ne!(markup, "x^2");
    assert_eq!(render_to_string("\\frac{"), "");
}
