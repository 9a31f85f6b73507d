//! Properties of the renderer that span several events or calls.
use vstd::prelude::*;
use crate::event::{closing, Alignment, ByteRange, Event, TagEnd, TagView};
use crate::components::{closing_tag, component_tag};
use crate::html::{Element, HtmlError, Kind, NodeView};
use crate::render::{
    close, close_components, closed_node, emit, emit_all, html_event, initial_machine,
    is_capitalized, is_literal, is_open_component, markup_node, payload,
    leaf, leaf_node, open, rendered, run, step, text_nodes, well_formed, Machine, Setting,
};

verus! {

/// Every node and every open container other than the document carries the
/// range of one of the events `evs`.
pub open spec fn ranges_from(m: Machine, evs: Seq<(Event, ByteRange)>) -> bool {
    &&& forall|k: int|
        0 <= k < m.nodes.len() ==> exists|j: int|
            0 <= j < evs.len() && (#[trigger] m.nodes[k]).range == Some(evs[j].1)
    &&& forall|k: int|
        1 <= k < m.stack.len() ==> exists|j: int|
            0 <= j < evs.len() && (#[trigger] m.stack[k]).range == evs[j].1
}

/// Adding nodes to the innermost container appends them to the nodes and
/// keeps the containers, but for the children of the innermost one.
pub proof fn lemma_emit_all(m: Machine, ns: Seq<NodeView>)
    requires
        well_formed(m),
    ensures
        emit_all(m, ns).nodes == m.nodes + ns,
        emit_all(m, ns).stack.len() == m.stack.len(),
        forall|i: int|
            0 <= i < m.stack.len() ==> (#[trigger] emit_all(m, ns).stack[i]).range == m.stack[i].range
                && emit_all(m, ns).stack[i].tag == m.stack[i].tag,
        well_formed(emit_all(m, ns)),
    decreases ns.len(),
{
    if ns.len() == 0 {
        assert(m.nodes + ns =~= m.nodes);
    } else {
        let m1 = emit(m, ns[0]);
        assert(well_formed(m1)) by {
            assert forall|i: int| 1 <= i < m1.stack.len() implies (#[trigger] m1.stack[i]).tag is Some by {
                assert(m.stack[i].tag is Some);
            }
        }
        lemma_emit_all(m1, ns.subrange(1, ns.len() as int));
        assert(m1.nodes + ns.subrange(1, ns.len() as int) =~= m.nodes + ns);
    }
}

/// Every node made for a text at `r` reports `r`.
pub proof fn lemma_text_nodes_range(s: Setting, text: Seq<char>, r: ByteRange)
    ensures
        forall|k: int| 0 <= k < text_nodes(s, text, r).len() ==> (#[trigger] text_nodes(s, text, r)[k]).range == Some(r),
{
}

/// `r` is the range of one of the events `evs`.
pub open spec fn in_events(r: ByteRange, evs: Seq<(Event, ByteRange)>) -> bool {
    exists|j: int| 0 <= j < evs.len() && evs[j].1 == r
}

/// The machine is well formed and all its ranges come from `evs`.
pub open spec fn sound(m: Machine, evs: Seq<(Event, ByteRange)>) -> bool {
    well_formed(m) && ranges_from(m, evs)
}

proof fn lemma_emit_sound(m: Machine, n: NodeView, evs: Seq<(Event, ByteRange)>)
    requires
        sound(m, evs),
        n.range matches Some(r) && in_events(r, evs),
    ensures
        sound(emit(m, n), evs),
{
    let m2 = emit(m, n);
    assert forall|i: int| 1 <= i < m2.stack.len() implies (#[trigger] m2.stack[i]).tag is Some by {
        assert(m.stack[i].tag is Some);
    }
    assert forall|k: int| 0 <= k < m2.nodes.len() implies exists|j: int|
        0 <= j < evs.len() && (#[trigger] m2.nodes[k]).range == Some(evs[j].1) by {
        if k < m.nodes.len() {
            assert(m2.nodes[k] == m.nodes[k]);
        }
    }
    assert forall|k: int| 1 <= k < m2.stack.len() implies exists|j: int|
        0 <= j < evs.len() && (#[trigger] m2.stack[k]).range == evs[j].1 by {
        assert(m2.stack[k].range == m.stack[k].range);
    }
}

proof fn lemma_close_sound(s: Setting, m: Machine, evs: Seq<(Event, ByteRange)>)
    requires
        sound(m, evs),
        m.stack.len() >= 2,
    ensures
        sound(close(s, m), evs),
        close(s, m).stack.len() == m.stack.len() - 1,
{
    let f = m.stack.last();
    let m1 = Machine { nodes: m.nodes, stack: m.stack.drop_last() };
    assert(m.stack[m.stack.len() - 1] == f);
    assert(sound(m1, evs)) by {
        assert forall|k: int| 1 <= k < m1.stack.len() implies exists|j: int|
            0 <= j < evs.len() && (#[trigger] m1.stack[k]).range == evs[j].1 by {
            assert(m1.stack[k] == m.stack[k]);
        }
        assert forall|i: int| 1 <= i < m1.stack.len() implies (#[trigger] m1.stack[i]).tag is Some by {
            assert(m1.stack[i] == m.stack[i]);
        }
    }
    lemma_emit_sound(m1, closed_node(s, m.nodes, f), evs);
}

proof fn lemma_open_sound(m: Machine, tag: TagView, r: ByteRange, evs: Seq<(Event, ByteRange)>)
    requires
        sound(m, evs),
        in_events(r, evs),
    ensures
        open(m, tag, r) matches Ok(m2) ==> sound(m2, evs) && m2.nodes == m.nodes,
{
    if let Ok(m2) = open(m, tag, r) {
        assert forall|i: int| 1 <= i < m2.stack.len() implies (#[trigger] m2.stack[i]).tag is Some by {
            if i < m.stack.len() {
                assert(m.stack[i].tag is Some);
            }
        }
        assert forall|k: int| 1 <= k < m2.stack.len() implies exists|j: int|
            0 <= j < evs.len() && (#[trigger] m2.stack[k]).range == evs[j].1 by {
            if k < m.stack.len() {
                assert(m2.stack[k].range == m.stack[k].range);
            }
        }
    }
}

proof fn lemma_close_components_sound(s: Setting, m: Machine, evs: Seq<(Event, ByteRange)>)
    requires
        sound(m, evs),
    ensures
        sound(close_components(s, m), evs),
    decreases m.stack.len(),
{
    if m.stack.len() >= 2 && (m.stack.last().tag matches Some(TagView::Component { .. })) {
        lemma_close_sound(s, m, evs);
        lemma_close_components_sound(s, close(s, m), evs);
    }
}

proof fn lemma_html_event_sound(
    s: Setting,
    m: Machine,
    html: Seq<char>,
    e: Element,
    r: ByteRange,
    evs: Seq<(Event, ByteRange)>,
)
    requires
        sound(m, evs),
        in_events(r, evs),
    ensures
        sound(html_event(s, m, html, e, r), evs),
{
    match component_tag(html) {
        Some((n, a, c)) => {
            if c || !s.components.contains(n) {
                if c && s.components.contains(n) {
                    lemma_emit_sound(m, leaf_node(Kind::Component(n, a), r), evs);
                } else {
                    lemma_emit_sound(m, markup_node(s, n, html, e, r), evs);
                }
            } else {
                lemma_open_sound(m, TagView::Component { name: n, attributes: a }, r, evs);
            }
        },
        None => {
            if closing_tag(html) matches Some(n) && is_open_component(m, n) {
                lemma_close_sound(s, m, evs);
            } else {
                lemma_emit_sound(m, leaf_node(Kind::InnerHtml(e, html), r), evs);
            }
        },
    }
}

proof fn lemma_emit_all_sound(m: Machine, ns: Seq<NodeView>, r: ByteRange, evs: Seq<(Event, ByteRange)>)
    requires
        sound(m, evs),
        in_events(r, evs),
        forall|k: int| 0 <= k < ns.len() ==> (#[trigger] ns[k]).range == Some(r),
    ensures
        sound(emit_all(m, ns), evs),
    decreases ns.len(),
{
    if ns.len() > 0 {
        lemma_emit_sound(m, ns[0], evs);
        let rest = ns.subrange(1, ns.len() as int);
        assert forall|k: int| 0 <= k < rest.len() implies (#[trigger] rest[k]).range == Some(r) by {
            assert(rest[k] == ns[k + 1]);
        }
        lemma_emit_all_sound(emit(m, ns[0]), rest, r, evs);
    }
}

/// One event read at position `i` of `evs` keeps the machine well formed
/// and every range one of theirs.
pub proof fn lemma_step_sound(s: Setting, m: Machine, evs: Seq<(Event, ByteRange)>, i: int)
    requires
        sound(m, evs),
        0 <= i < evs.len(),
    ensures
        step(s, m, evs[i].0, evs[i].1) matches Ok(m2) ==> sound(m2, evs),
{
    let (ev, r) = evs[i];
    assert(in_events(r, evs));
    let t = m.stack.last();
    if is_literal(t.tag) {
        if t.text is None && payload(t.tag, ev) is Some {
            let m2 = step(s, m, ev, r)->Ok_0;
            assert forall|k: int| 1 <= k < m2.stack.len() implies exists|j: int|
                0 <= j < evs.len() && (#[trigger] m2.stack[k]).range == evs[j].1 by {
                assert(m2.stack[k].range == m.stack[k].range);
            }
            assert forall|k: int| 1 <= k < m2.stack.len() implies (#[trigger] m2.stack[k]).tag is Some by {
                assert(m2.stack[k].tag == m.stack[k].tag);
            }
        } else if t.text is Some && ev == Event::End(closing(t.tag->0)) {
            assert(m.stack.len() >= 2) by {
                assert(m.stack[m.stack.len() - 1] == t);
            }
            let f = t;
            if f.tag == Some(TagView::HtmlBlock) {
                let m1 = Machine { nodes: m.nodes, stack: m.stack.drop_last() };
                assert(sound(m1, evs)) by {
                    assert forall|k: int| 1 <= k < m1.stack.len() implies exists|j: int|
                        0 <= j < evs.len() && (#[trigger] m1.stack[k]).range == evs[j].1 by {
                        assert(m1.stack[k] == m.stack[k]);
                    }
                    assert forall|k: int| 1 <= k < m1.stack.len() implies (#[trigger] m1.stack[k]).tag is Some by {
                        assert(m1.stack[k] == m.stack[k]);
                    }
                }
                assert(in_events(f.range, evs)) by {
                    assert(m.stack[m.stack.len() - 1].range == f.range);
                }
                let text = match f.text {
                    Some(x) => x,
                    None => seq![],
                };
                lemma_html_event_sound(s, m1, text, Element::Div, f.range, evs);
            } else {
                lemma_close_sound(s, m, evs);
            }
        }
    } else {
        match ev {
            Event::Start(tag) => {
                lemma_open_sound(m, tag@, r, evs);
            },
            Event::Text(x) => {
                lemma_text_nodes_range(s, x@, r);
                lemma_emit_all_sound(m, text_nodes(s, x@, r), r, evs);
            },
            Event::Html(h) => {
                lemma_html_event_sound(s, m, h@, Element::Span, r, evs);
            },
            Event::InlineHtml(h) => {
                lemma_html_event_sound(s, m, h@, Element::Span, r, evs);
            },
            Event::End(e) => {
                lemma_close_components_sound(s, m, evs);
                let m1 = if e == TagEnd::Component {
                    m
                } else {
                    close_components(s, m)
                };
                if m1.stack.len() >= 2 {
                    lemma_close_sound(s, m1, evs);
                }
            },
            _ => {
                if let Some(n) = leaf(s, ev, r) {
                    lemma_emit_sound(m, n, evs);
                }
            },
        }
    }
}

/// The machine after `evs[i..]`, from a sound machine, is still sound.
pub proof fn lemma_run_sound(s: Setting, evs: Seq<(Event, ByteRange)>, i: nat, m: Machine)
    requires
        sound(m, evs),
    ensures
        run(s, evs, i, m) matches Ok(m2) ==> sound(m2, evs),
    decreases evs.len() - i,
{
    if i < evs.len() {
        lemma_step_sound(s, m, evs, i as int);
        if let Ok(m2) = step(s, m, evs[i as int].0, evs[i as int].1) {
            lemma_run_sound(s, evs, i + 1, m2);
        }
    }
}

/// The click handler of every rendered node reports the source range of an
/// event of the stream it was rendered from: the range of the event that
/// produced the node.
pub proof fn lemma_click_ranges(s: Setting, evs: Seq<(Event, ByteRange)>)
    ensures
        rendered(s, evs) matches Ok(d) ==> forall|k: int|
            0 <= k < d.nodes.len() ==> exists|j: int|
                0 <= j < evs.len() && (#[trigger] d.nodes[k]).range == Some(evs[j].1),
{
    let m0 = initial_machine();
    assert(well_formed(m0));
    lemma_run_sound(s, evs, 0, m0);
    if let Ok(m) = run(s, evs, 0, m0) {
        lemma_close_components_sound(s, m, evs);
    }
}

/// The node that an event makes reports that event's range: a leaf event
/// adds one node with its range, a text event adds nodes that all report
/// its range, a container keeps the range of the event that opened it, and
/// the node it closes into reports that range.
pub proof fn lemma_event_node_range(s: Setting, m: Machine, ev: Event, r: ByteRange)
    requires
        well_formed(m),
    ensures
        !is_literal(m.stack.last().tag) && leaf(s, ev, r) is Some ==> (step(s, m, ev, r) matches Ok(m2)
            && m2.nodes.len() == m.nodes.len() + 1 && m2.nodes.last().range == Some(r)),
        !is_literal(m.stack.last().tag) && ev is Text ==> (step(s, m, ev, r) matches Ok(m2) && m2.nodes
            == m.nodes + text_nodes(s, ev->Text_0@, r)),
        ev is Text ==> forall|k: int|
            0 <= k < text_nodes(s, ev->Text_0@, r).len() ==> (#[trigger] text_nodes(
                s,
                ev->Text_0@,
                r,
            )[k]).range == Some(r),
        !is_literal(m.stack.last().tag) && ev is Start ==> (step(s, m, ev, r) matches Ok(m2)
            ==> m2.stack.len() == m.stack.len() + 1 && m2.stack.last().range == r),
        m.stack.len() >= 2 ==> close(s, m).nodes.last().range == Some(m.stack.last().range),
{
    if ev is Text {
        lemma_emit_all(m, text_nodes(s, ev->Text_0@, r));
        lemma_text_nodes_range(s, ev->Text_0@, r);
    }
}

/// A self-closing tag of a registered component renders as that component,
/// given the attributes written on the tag in order; an opening tag of one
/// opens a container for it, and the matching closing tag closes it into
/// that component with the nodes in between as its children; a capitalized
/// tag of no registered component renders as a diagnostic; and an html
/// event outside a code, html or metadata block never ends the pass.
pub proof fn lemma_component_dispatch(s: Setting, m: Machine, html: String, r: ByteRange)
    requires
        well_formed(m),
    ensures
        component_tag(html@) matches Some((n, a, c)) ==> (s.components.contains(n) && c ==> html_event(
            s,
            m,
            html@,
            Element::Span,
            r,
        ) == emit(m, leaf_node(Kind::Component(n, a), r))),
        component_tag(html@) matches Some((n, a, c)) ==> (s.components.contains(n) && !c ==> ({
            let m2 = html_event(s, m, html@, Element::Span, r);
            &&& m2.stack.len() == m.stack.len() + 1
            &&& m2.stack.last().tag == Some(TagView::Component { name: n, attributes: a })
            &&& m2.stack.last().children == Seq::<usize>::empty()
        })),
        component_tag(html@) matches Some((n, a, c)) ==> (!s.components.contains(n) && is_capitalized(n)
            ==> html_event(s, m, html@, Element::Span, r) == emit(
            m,
            leaf_node(Kind::Error(HtmlError::UnknownComponent), r),
        )),
        closing_tag(html@) matches Some(n) ==> (component_tag(html@) is None && is_open_component(m, n)
            ==> html_event(s, m, html@, Element::Span, r) == close(s, m)),
        m.stack.last().tag matches Some(TagView::Component { name, attributes }) ==> (s.components.contains(
            name,
        ) ==> closed_node(s, m.nodes, m.stack.last()) == (NodeView {
            kind: Kind::Component(name, attributes),
            children: m.stack.last().children,
            range: Some(m.stack.last().range),
        })),
        !is_literal(m.stack.last().tag) ==> step(s, m, Event::InlineHtml(html), r) is Ok && step(
            s,
            m,
            Event::Html(html),
            r,
        ) is Ok,
{
}

/// When an event is owed success: outside a code, html or metadata block,
/// every event but a closing one and a table cell is read without error; a
/// closing event is read without error when it closes the innermost
/// container once the component containers above it are closed; a cell is
/// read without error in a container of a table with a column left; and
/// inside such a block, its payload and then its closing event are.
pub proof fn lemma_step_succeeds(s: Setting, m: Machine, ev: Event, r: ByteRange)
    requires
        well_formed(m),
    ensures
        !is_literal(m.stack.last().tag) && !(ev is End) && ev != Event::Start(crate::event::Tag::TableCell)
            ==> step(s, m, ev, r) is Ok,
        !is_literal(m.stack.last().tag) && ev == Event::Start(crate::event::Tag::TableCell) ==> (step(
            s,
            m,
            ev,
            r,
        ) is Ok <==> (m.stack.last().align matches Some(a) && m.stack.last().cell < a.len())),
        ({
            let m1 = close_components(s, m);
            ev matches Event::End(e) && e != TagEnd::Component && !is_literal(m.stack.last().tag)
                && m1.stack.len() >= 2 && closing(m1.stack.last().tag->0) == e ==> step(s, m, ev, r) is Ok
        }),
        is_literal(m.stack.last().tag) && m.stack.last().text is None ==> (step(s, m, ev, r) is Ok <==> payload(
            m.stack.last().tag,
            ev,
        ) is Some),
        is_literal(m.stack.last().tag) && m.stack.last().text is Some ==> (step(s, m, ev, r) is Ok <==> ev
            == Event::End(closing(m.stack.last().tag->0))),
{
}

/// Rendering the same events twice in the same setting gives the same
/// document.
pub proof fn lemma_render_idempotent(
    s1: Setting,
    s2: Setting,
    e1: Seq<(Event, ByteRange)>,
    e2: Seq<(Event, ByteRange)>,
)
    requires
        s1 == s2,
        e1 == e2,
    ensures
        rendered(s1, e1) == rendered(s2, e2),
{
}

/// Table cells take their alignment by position: a row opened in a table
/// whose columns are aligned by `a` starts with no cell counted and the
/// same alignments; the cell opened after `k` others in that row is
/// aligned by `a[k]`; and it closes into a cell element with that
/// alignment.
pub proof fn lemma_cell_alignment(
    s: Setting,
    m: Machine,
    a: Seq<Alignment>,
    k: nat,
    r: ByteRange,
)
    requires
        well_formed(m),
        m.stack.last().align == Some(a),
    ensures
        open(m, TagView::TableRow, r) matches Ok(m2) && m2.stack.last().align == Some(a)
            && m2.stack.last().cell == 0,
        m.stack.last().cell == k && k < a.len() ==> (open(m, TagView::TableCell, r) matches Ok(m2)
            && m2.stack.last().cell_align == a[k as int] && m2.stack[m2.stack.len() - 2].cell
            == k + 1),
        (m.stack.last().tag == Some(TagView::TableCell) && m.stack.len() >= 2) ==> closed_node(
            s,
            m.nodes,
            m.stack.last(),
        ).kind == Kind::Element(Element::Tcell(m.stack.last().cell_align)),
{
}

} // verus!
