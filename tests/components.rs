use yew_markdown::cache::AstCache;
use yew_markdown::components::{parse_closing_tag, parse_component, CustomComponents};
use yew_markdown::event::{ByteRange, Event, Tag, TagEnd};
use yew_markdown::html::{Element, HtmlError, NodeKind};
use yew_markdown::render::{render, RenderContext};

fn r(start: usize, end: usize) -> ByteRange {
    ByteRange { start, end }
}

fn pairs(v: &[(&str, &str)]) -> Vec<(String, String)> {
    v.iter().map(|(a, b)| (a.to_string(), b.to_string())).collect()
}

fn counter_context() -> RenderContext {
    let mut registry: CustomComponents<u32> = CustomComponents::new();
    registry.register("Counter", 1);
    RenderContext::new(None, false, false, registry.names()).ok().unwrap()
}

fn render_html(ctx: &RenderContext, html: &str) -> NodeKind {
    let events = vec![(Event::InlineHtml(html.to_string()), r(0, html.len()))];
    let d = render(ctx, &events).ok().unwrap();
    d.nodes[0].kind.clone()
}

#[test]
fn registered_component_gets_its_attributes() {
    let ctx = counter_context();
    assert_eq!(
        render_html(&ctx, "<Counter initial=\"5\"/>"),
        NodeKind::Component("Counter".into(), pairs(&[("initial", "5")]))
    );
}

#[test]
fn component_without_attributes() {
    let ctx = counter_context();
    assert_eq!(render_html(&ctx, "<Counter/>"), NodeKind::Component("Counter".into(), vec![]));
}

#[test]
fn component_with_unparsable_value_does_not_crash() {
    let ctx = counter_context();
    assert_eq!(
        render_html(&ctx, "<Counter initial=\"a\"/>"),
        NodeKind::Component("Counter".into(), pairs(&[("initial", "a")]))
    );
}

#[test]
fn component_in_html_block() {
    let ctx = counter_context();
    let events = vec![
        (Event::Start(Tag::HtmlBlock), r(0, 24)),
        (Event::Html("<Counter initial=\"5\"/>\n".into()), r(0, 23)),
        (Event::End(TagEnd::HtmlBlock), r(0, 24)),
    ];
    let d = render(&ctx, &events).ok().unwrap();
    assert_eq!(d.nodes[0].kind, NodeKind::Component("Counter".into(), pairs(&[("initial", "5")])));
    assert_eq!(d.nodes[0].range, Some(r(0, 24)));
}

#[test]
fn unregistered_component_is_a_local_error() {
    let ctx = counter_context();
    assert_eq!(render_html(&ctx, "<Chart/>"), NodeKind::Error(HtmlError::UnknownComponent));
}

#[test]
fn ordinary_html_is_kept() {
    let ctx = counter_context();
    assert_eq!(render_html(&ctx, "<br/>"), NodeKind::InnerHtml(Element::Span, "<br/>".into()));
    assert_eq!(render_html(&ctx, "<b>"), NodeKind::InnerHtml(Element::Span, "<b>".into()));
}

#[test]
fn lower_case_component_is_found_when_registered() {
    let mut registry: CustomComponents<u32> = CustomComponents::new();
    registry.register("box", 2);
    let ctx = RenderContext::new(None, false, false, registry.names()).ok().unwrap();
    assert_eq!(render_html(&ctx, "<box/>"), NodeKind::Component("box".into(), vec![]));
}

#[test]
fn parse_component_tags() {
    assert_eq!(
        parse_component("  <Counter initial=\"5\" step=\"2\" on/>  \n"),
        Some(("Counter".to_string(), pairs(&[("initial", "5"), ("step", "2"), ("on", "")]), true))
    );
    assert_eq!(parse_component("<Counter>"), Some(("Counter".to_string(), vec![], false)));
    assert_eq!(
        parse_component("<Box color=\"blue\">\n"),
        Some(("Box".to_string(), pairs(&[("color", "blue")]), false))
    );
    assert_eq!(parse_closing_tag("</Box>\n"), Some("Box".to_string()));
    assert_eq!(parse_closing_tag("</ Box>"), None);
    assert_eq!(parse_closing_tag("<Box>"), None);
    assert_eq!(parse_component("<Counter initial=\"5/>"), None);
    assert_eq!(parse_component("text <Counter/>"), None);
    assert_eq!(parse_component("<1x/>"), None);
    assert_eq!(parse_component(""), None);
}

fn box_context() -> RenderContext {
    let mut registry: CustomComponents<u32> = CustomComponents::new();
    registry.register("Box", 1);
    RenderContext::new(None, false, false, registry.names()).ok().unwrap()
}

#[test]
fn inline_component_gets_its_children() {
    let events = vec![
        (Event::Start(Tag::Paragraph), r(0, 30)),
        (Event::InlineHtml("<Box color=\"blue\">".into()), r(0, 18)),
        (Event::Text("hi".into()), r(18, 20)),
        (Event::InlineHtml("</Box>".into()), r(20, 26)),
        (Event::End(TagEnd::Paragraph), r(0, 30)),
    ];
    let d = render(&box_context(), &events).ok().unwrap();
    assert_eq!(d.nodes[0].kind, NodeKind::Text("hi".into()));
    assert_eq!(d.nodes[1].kind, NodeKind::Component("Box".into(), pairs(&[("color", "blue")])));
    assert_eq!(d.nodes[1].children, vec![0]);
    assert_eq!(d.nodes[1].range, Some(r(0, 18)));
    assert_eq!(d.nodes[2].kind, NodeKind::Element(Element::Paragraph));
    assert_eq!(d.nodes[2].children, vec![1]);
}

#[test]
fn block_component_gets_its_children() {
    let events = vec![
        (Event::Start(Tag::HtmlBlock), r(0, 6)),
        (Event::Html("<Box>\n".into()), r(0, 6)),
        (Event::End(TagEnd::HtmlBlock), r(0, 6)),
        (Event::Start(Tag::Paragraph), r(7, 20)),
        (Event::Text("inside".into()), r(9, 15)),
        (Event::End(TagEnd::Paragraph), r(7, 20)),
        (Event::Start(Tag::HtmlBlock), r(21, 28)),
        (Event::Html("</Box>\n".into()), r(21, 28)),
        (Event::End(TagEnd::HtmlBlock), r(21, 28)),
        (Event::Text("after".into()), r(29, 34)),
    ];
    let d = render(&box_context(), &events).ok().unwrap();
    let roots: Vec<NodeKind> = d.roots.iter().map(|i| d.nodes[*i].kind.clone()).collect();
    assert_eq!(roots, vec![NodeKind::Component("Box".into(), vec![]), NodeKind::Text("after".into())]);
    let component = &d.nodes[d.roots[0]];
    assert_eq!(component.range, Some(r(0, 6)));
    assert_eq!(component.children.len(), 1);
    assert_eq!(d.nodes[component.children[0]].kind, NodeKind::Element(Element::Paragraph));
}

#[test]
fn unclosed_component_is_closed_with_its_container() {
    let events = vec![
        (Event::Start(Tag::Paragraph), r(0, 20)),
        (Event::InlineHtml("<Box>".into()), r(0, 5)),
        (Event::Text("hi".into()), r(5, 7)),
        (Event::End(TagEnd::Paragraph), r(0, 20)),
        (Event::InlineHtml("<Box>".into()), r(21, 26)),
    ];
    let d = render(&box_context(), &events).ok().unwrap();
    assert_eq!(d.nodes[1].kind, NodeKind::Component("Box".into(), vec![]));
    assert_eq!(d.nodes[1].children, vec![0]);
    assert_eq!(d.nodes[2].kind, NodeKind::Element(Element::Paragraph));
    assert_eq!(d.nodes[3].kind, NodeKind::Component("Box".into(), vec![]));
    assert_eq!(d.roots, vec![2, 3]);
}

#[test]
fn unregistered_opening_tag_is_a_local_error() {
    let ctx = box_context();
    assert_eq!(render_html(&ctx, "<Chart>"), NodeKind::Error(HtmlError::UnknownComponent));
    assert_eq!(render_html(&ctx, "</Box>"), NodeKind::InnerHtml(Element::Span, "</Box>".into()));
    assert_eq!(render_html(&ctx, "<div>"), NodeKind::InnerHtml(Element::Span, "<div>".into()));
}

#[test]
fn later_registration_wins() {
    let mut registry: CustomComponents<&str> = CustomComponents::new();
    assert!(!registry.has_custom_component("Counter"));
    registry.register("Counter", "first");
    registry.register("Other", "other");
    registry.register("Counter", "second");
    assert_eq!(registry.get("Counter"), Some(&"second"));
    assert_eq!(registry.get("Other"), Some(&"other"));
    assert_eq!(registry.get("Missing"), None);
    assert!(registry.has_custom_component("Counter"));
    let mut names = registry.names();
    names.sort();
    assert_eq!(names, vec!["Counter".to_string(), "Other".to_string()]);
}

#[test]
fn cache_serves_a_text_seen_before() {
    let mut cache: AstCache<&str> = AstCache::new();
    assert!(cache.begin("A", true));
    cache.store("tree A");
    assert!(cache.begin("B", true));
    cache.store("tree B");
    assert!(!cache.begin("A", true));
    assert_eq!(cache.current(), Some(&"tree A"));
}

#[test]
fn without_caching_every_change_parses() {
    let mut cache: AstCache<&str> = AstCache::new();
    assert!(cache.begin("A", false));
    cache.store("tree A");
    assert!(cache.begin("B", false));
    cache.store("tree B");
    assert!(cache.begin("A", false));
    assert_eq!(cache.current(), None);
    cache.store("tree A again");
    assert_eq!(cache.current(), Some(&"tree A again"));
}

#[test]
fn unchanged_text_is_not_parsed_again() {
    let mut cache: AstCache<u8> = AstCache::new();
    assert!(cache.begin("A", false));
    cache.store(1);
    assert!(!cache.begin("A", false));
    assert_eq!(cache.current(), Some(&1));
}
