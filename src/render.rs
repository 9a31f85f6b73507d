//! The tree-building renderer: a stack of open containers, each waiting for
//! the event that closes it, over a flat stream of markup events.
use vstd::prelude::*;
use crate::event::{
    as_closing_tag, closing, Alignment, ByteRange, CodeBlockKind, Event, MathMode, Tag,
    TagEnd, TagView,
};
use crate::components::{closing_tag, component_tag, pairs_view, parse_closing_tag, parse_component};
use crate::position::{fits, fits_from_origin, origin, Point};
use crate::wikilink::{inlines_view, parse_wikilinks, text_pieces, Inline, InlineView};
use crate::html::{nodes_view, Document, DocumentView, Element, Kind, Node, NodeKind, NodeView, HtmlError};

verus! {

#[verifier::external_type_specification]
#[verifier::external_body]
pub struct ExSyntaxSet(syntect::parsing::SyntaxSet);

#[verifier::external_type_specification]
#[verifier::external_body]
pub struct ExTheme(syntect::highlighting::Theme);

/// Whether syntect's default theme set holds a theme of this name: it
/// documents seven.
pub open spec fn known_theme(name: Seq<char>) -> bool {
    name == "base16-ocean.dark"@ || name == "base16-eighties.dark"@ || name == "base16-mocha.dark"@
        || name == "base16-ocean.light"@ || name == "InspiredGitHub"@ || name == "Solarized (dark)"@
        || name == "Solarized (light)"@
}

/// The markup that syntect gives for `code` in language `lang` with the
/// default theme named `theme`, or `None` where it has no grammar for `lang`
/// or fails.
pub uninterp spec fn highlighted(code: Seq<char>, lang: Seq<char>, theme: Seq<char>) -> Option<Seq<char>>;

/// The markup that KaTeX gives for `formula`, in display mode or not, or
/// `None` where it rejects the formula.
pub uninterp spec fn math_markup(formula: Seq<char>, display: bool) -> Option<Seq<char>>;

/// Relies on `ThemeSet::load_defaults` and a lookup in its `themes` map: the
/// theme of that name, if the default set has one.
#[verifier::external_body]
fn load_theme(name: &str) -> (r: Option<syntect::highlighting::Theme>)
    ensures
        r is Some <==> known_theme(name@),
{
    syntect::highlighting::ThemeSet::load_defaults().themes.get(name).cloned()
}

/// Relies on `SyntaxSet::load_defaults_newlines`: the default grammars.
#[verifier::external_body]
fn load_syntaxes() -> (r: syntect::parsing::SyntaxSet) {
    syntect::parsing::SyntaxSet::load_defaults_newlines()
}

/// Relies on syntect's `find_syntax_by_token`, which picks the grammar for
/// `lang`, and `highlighted_html_for_string`, which renders `code` with it in
/// the context's theme. The context holds the default grammars and the
/// default theme that it names, so the markup depends on the three texts.
#[verifier::external_body]
fn highlight_code(context: &RenderContext, code: &str, lang: &str) -> (r: Option<String>)
    ensures
        match r {
            Some(s) => highlighted(code@, lang@, context@.theme) == Some(s@),
            None => highlighted(code@, lang@, context@.theme) is None,
        },
{
    let syntax = context.syntax_set.find_syntax_by_token(lang)?;
    syntect::html::highlighted_html_for_string(code, &context.syntax_set, syntax, &context.theme).ok()
}

/// Relies on `katex::render_with_opts`, with options that set only the
/// display mode: the markup for `formula`, or `None` where KaTeX fails.
#[verifier::external_body]
fn compile_math(formula: &str, display: bool) -> (r: Option<String>)
    ensures
        match r {
            Some(s) => math_markup(formula@, display) == Some(s@),
            None => math_markup(formula@, display) is None,
        },
{
    let opts = katex::Opts::builder().display_mode(display).build().ok()?;
    katex::render_with_opts(formula, opts).ok()
}

/// Why a context could not be built.
#[derive(Clone, Copy, Debug, PartialEq, Eq, Structural)]
pub enum ContextError {
    UnknownTheme,
}

/// What the renderer needs besides the events: the grammars and theme used
/// to highlight code, and whether links go to the embedder's renderer.
pub struct RenderContext {
    syntax_set: syntect::parsing::SyntaxSet,
    theme: syntect::highlighting::Theme,
    theme_name: String,
    custom_links: bool,
    wikilinks: bool,
    components: Vec<String>,
}

/// The mathematical value of a [`RenderContext`].
pub struct Setting {
    pub theme: Seq<char>,
    pub custom_links: bool,
    /// Whether wikilinks are recognised in text.
    pub wikilinks: bool,
    /// Names under which custom components are registered.
    pub components: Seq<Seq<char>>,
}

/// The mathematical value of a list of names.
pub open spec fn names_view(v: Seq<String>) -> Seq<Seq<char>> {
    v.map_values(|x: String| x@)
}

impl View for RenderContext {
    type V = Setting;

    closed spec fn view(&self) -> Setting {
        Setting {
            theme: self.theme_name@,
            custom_links: self.custom_links,
            wikilinks: self.wikilinks,
            components: names_view(self.components@),
        }
    }
}

/// The theme used where none is named.
pub open spec fn default_theme() -> Seq<char> {
    "base16-ocean.light"@
}

impl RenderContext {
    /// A context highlighting with the named theme, or the default one,
    /// handing links to the embedder's renderer where `custom_links` holds,
    /// recognising wikilinks in text where `wikilinks` holds, and knowing the
    /// custom components named in `components`. Fails where the default
    /// theme set has no theme of that name.
    pub fn new(
        theme_name: Option<String>,
        custom_links: bool,
        wikilinks: bool,
        components: Vec<String>,
    ) -> (r: Result<
        RenderContext,
        ContextError,
    >)
        ensures
            ({
                let name = match theme_name {
                    Some(n) => n@,
                    None => default_theme(),
                };
                match r {
                    Ok(c) => known_theme(name) && c@ == (Setting {
                        theme: name,
                        custom_links,
                        wikilinks,
                        components: names_view(components@),
                    }),
                    Err(e) => !known_theme(name) && e == ContextError::UnknownTheme,
                }
            }),
            theme_name is None ==> r is Ok,
    {
        let name = match theme_name {
            Some(n) => n,
            None => {
                proof {
                    reveal_strlit("base16-ocean.light");
                }
                String::from_str("base16-ocean.light")
            },
        };
        match load_theme(name.as_str()) {
            Some(theme) => Ok(
                RenderContext {
                    syntax_set: load_syntaxes(),
                    theme,
                    theme_name: name,
                    custom_links,
                    wikilinks,
                    components,
                },
            ),
            None => Err(ContextError::UnknownTheme),
        }
    }

    /// Whether a custom component is registered under `name`.
    pub fn has_custom_component(&self, name: &String) -> (r: bool)
        ensures
            r == self@.components.contains(name@),
    {
        let mut i: usize = 0;
        while i < self.components.len()
            invariant
                i <= self.components@.len(),
                forall|j: int| 0 <= j < i ==> self.components@[j]@ != name@,
            decreases self.components@.len() - i,
        {
            if self.components[i] == *name {
                proof {
                    assert(self@.components[i as int] == name@);
                }
                return true;
            }
            i = i + 1;
        }
        proof {
            if self@.components.contains(name@) {
                let j = choose|j: int| 0 <= j < self@.components.len() && self@.components[j] == name@;
                assert(self.components@[j]@ == name@);
            }
        }
        false
    }

    /// Whether links go to the embedder's renderer.
    pub fn has_custom_links(&self) -> (r: bool)
        ensures
            r == self@.custom_links,
    {
        self.custom_links
    }
}


/// A break in the nesting of the event stream. The grammar that produces the
/// events never gives one, so meeting one ends the whole pass.
#[derive(Clone, Copy, Debug, PartialEq, Eq, Structural)]
pub enum StructureError {
    /// A closing event with no open container.
    UnexpectedEnd(TagEnd),
    /// A closing event for another container than the innermost open one.
    MismatchedEnd(TagEnd, TagEnd),
    /// A table cell outside a table, or past its last column.
    CellOutsideTable,
    /// A code, html or metadata block not made of one payload event then its
    /// closing event.
    UnexpectedEvent,
    /// A container still open at the end of the stream.
    Unclosed,
}

/// The mathematical value of an open container.
pub struct FrameView {
    /// The tag that opened it; `None` for the document itself.
    pub tag: Option<TagView>,
    pub range: ByteRange,
    pub children: Seq<usize>,
    /// Column alignments of the table that the container is in, if any.
    pub align: Option<Seq<Alignment>>,
    /// Number of cells opened so far directly in this container.
    pub cell: nat,
    /// Alignment of this container where it is a table cell.
    pub cell_align: Alignment,
    /// Payload of a code, html or metadata block.
    pub text: Option<Seq<char>>,
}

/// The mathematical value of a renderer: the nodes made so far and the
/// stack of open containers, innermost last.
pub struct Machine {
    pub nodes: Seq<NodeView>,
    pub stack: Seq<FrameView>,
}

/// The document is the outermost open container, and every other one was
/// opened by a tag.
pub open spec fn well_formed(m: Machine) -> bool {
    &&& m.stack.len() >= 1
    &&& m.stack[0].tag is None
    &&& forall|i: int| 1 <= i < m.stack.len() ==> (#[trigger] m.stack[i]).tag is Some
}

/// A node without children at `r`.
pub open spec fn leaf_node(k: Kind, r: ByteRange) -> NodeView {
    NodeView { kind: k, children: seq![], range: Some(r) }
}

/// The machine before any event: the document is the one open container.
pub open spec fn initial_machine() -> Machine {
    Machine {
        nodes: seq![],
        stack: seq![
            FrameView {
                tag: None,
                range: ByteRange { start: 0, end: 0 },
                children: seq![],
                align: None,
                cell: 0,
                cell_align: Alignment::Unaligned,
                text: None,
            },
        ],
    }
}

/// `m` with `n` added as the last child of the innermost open container.
pub open spec fn emit(m: Machine, n: NodeView) -> Machine {
    let t = m.stack.last();
    Machine {
        nodes: m.nodes.push(n),
        stack: m.stack.update(
            m.stack.len() - 1,
            FrameView {
                tag: t.tag,
                range: t.range,
                children: t.children.push(m.nodes.len() as usize),
                align: t.align,
                cell: t.cell,
                cell_align: t.cell_align,
                text: t.text,
            },
        ),
    }
}

/// Whether a tag name is written with a capital, as component names are.
pub open spec fn is_capitalized(n: Seq<char>) -> bool {
    n.len() > 0 && 'A' <= n[0] && n[0] <= 'Z'
}

/// Whether the innermost open container is the component named `n`.
pub open spec fn is_open_component(m: Machine, n: Seq<char>) -> bool {
    m.stack.len() >= 2 && (m.stack.last().tag matches Some(TagView::Component { name, .. }) && name == n)
}

/// The node for the markup `html` at `r`, inserted as it is in an element
/// `e`, or a diagnostic where it is a capitalized tag of no registered
/// component.
pub open spec fn markup_node(s: Setting, n: Seq<char>, html: Seq<char>, e: Element, r: ByteRange) -> NodeView {
    if is_capitalized(n) {
        leaf_node(Kind::Error(HtmlError::UnknownComponent), r)
    } else {
        leaf_node(Kind::InnerHtml(e, html), r)
    }
}

/// What the markup `html` at `r` does to the machine. A self-closing tag of
/// a registered component adds that component without children; an opening
/// tag of one opens a container for it, which the matching closing tag
/// closes; a capitalized tag of no registered component adds a diagnostic;
/// any other markup is added as it is, in an element `e`.
pub open spec fn html_event(s: Setting, m: Machine, html: Seq<char>, e: Element, r: ByteRange) -> Machine {
    match component_tag(html) {
        Some((n, a, true)) => if s.components.contains(n) {
            emit(m, leaf_node(Kind::Component(n, a), r))
        } else {
            emit(m, markup_node(s, n, html, e, r))
        },
        Some((n, a, false)) => if s.components.contains(n) {
            match open(m, TagView::Component { name: n, attributes: a }, r) {
                Ok(m2) => m2,
                Err(_) => m,
            }
        } else {
            emit(m, markup_node(s, n, html, e, r))
        },
        None => match closing_tag(html) {
            Some(n) => if is_open_component(m, n) {
                close(s, m)
            } else {
                emit(m, leaf_node(Kind::InnerHtml(e, html), r))
            },
            None => emit(m, leaf_node(Kind::InnerHtml(e, html), r)),
        },
    }
}

/// `m` with every component container that is innermost closed, one after
/// the other.
pub open spec fn close_components(s: Setting, m: Machine) -> Machine
    decreases m.stack.len(),
{
    if m.stack.len() >= 2 && (m.stack.last().tag matches Some(TagView::Component { .. })) {
        close_components(s, close(s, m))
    } else {
        m
    }
}

/// `m` with its innermost container, a code, html or metadata block, closed.
/// An html block does with its payload what markup does.
pub open spec fn close_literal(s: Setting, m: Machine) -> Machine {
    let f = m.stack.last();
    if f.tag == Some(TagView::HtmlBlock) {
        html_event(
            s,
            Machine { nodes: m.nodes, stack: m.stack.drop_last() },
            match f.text {
                Some(t) => t,
                None => seq![],
            },
            Element::Div,
            f.range,
        )
    } else {
        close(s, m)
    }
}

/// The node for a piece of text at `r`.
pub open spec fn piece_node(p: InlineView, r: ByteRange) -> NodeView {
    match p {
        InlineView::Text(t, _) => leaf_node(Kind::Text(t), r),
        InlineView::WikiLink { target, alias, .. } => leaf_node(Kind::WikiLink { target, alias }, r),
    }
}

/// The nodes for the text `text` at `r`: its pieces where wikilinks are
/// recognised, each reporting the range of the whole text, and one run of
/// text otherwise.
pub open spec fn text_nodes(s: Setting, text: Seq<char>, r: ByteRange) -> Seq<NodeView> {
    if s.wikilinks && fits(origin(), text) {
        text_pieces(text, origin()).map_values(|p: InlineView| piece_node(p, r))
    } else {
        seq![leaf_node(Kind::Text(text), r)]
    }
}

/// `m` with the nodes `ns` added in order to the innermost open container.
pub open spec fn emit_all(m: Machine, ns: Seq<NodeView>) -> Machine
    decreases ns.len(),
{
    if ns.len() == 0 {
        m
    } else {
        emit_all(emit(m, ns[0]), ns.subrange(1, ns.len() as int))
    }
}

/// The node that an event outside any code, html or metadata block makes on
/// its own; `None` for a soft break, which makes none, for text, which
/// makes [`text_nodes`], and for markup, which does [`html_event`].
pub open spec fn leaf(s: Setting, ev: Event, r: ByteRange) -> Option<NodeView> {
    match ev {
        Event::Code(s) => Some(leaf_node(Kind::InlineCode(s@), r)),
        Event::FootnoteReference(_) => Some(leaf_node(Kind::Error(HtmlError::FootnoteReference), r)),
        Event::HardBreak => Some(leaf_node(Kind::Element(Element::Br), r)),
        Event::Rule => Some(leaf_node(Kind::Element(Element::Hr), r)),
        Event::TaskListMarker(b) => Some(leaf_node(Kind::Element(Element::Checkbox(b)), r)),
        Event::Math(mode, s) => Some(
            match math_markup(s@, mode == MathMode::Display) {
                Some(x) => leaf_node(Kind::Math(mode, x), r),
                None => leaf_node(Kind::Error(HtmlError::InvalidMath), r),
            },
        ),
        _ => None,
    }
}

/// Whether `tag` opens a block made of one payload event.
pub open spec fn is_literal(tag: Option<TagView>) -> bool {
    match tag {
        Some(TagView::CodeBlock(_)) => true,
        Some(TagView::HtmlBlock) => true,
        Some(TagView::MetadataBlock) => true,
        _ => false,
    }
}

/// The payload that `ev` gives a block opened by `tag`, if it is the kind of
/// event that the block holds.
pub open spec fn payload(tag: Option<TagView>, ev: Event) -> Option<Seq<char>> {
    match (tag, ev) {
        (Some(TagView::CodeBlock(_)), Event::Text(s)) => Some(s@),
        (Some(TagView::MetadataBlock), Event::Text(s)) => Some(s@),
        (Some(TagView::HtmlBlock), Event::Html(s)) => Some(s@),
        _ => None,
    }
}

/// The element that a container tag becomes, for the tags that become one.
pub open spec fn element_of(tag: TagView, cell_align: Alignment) -> Option<Element> {
    match tag {
        TagView::Paragraph => Some(Element::Paragraph),
        TagView::Heading(l) => Some(Element::Heading(l)),
        TagView::BlockQuote => Some(Element::BlockQuote),
        TagView::List(Some(n)) => Some(Element::Ol(n)),
        TagView::List(None) => Some(Element::Ul),
        TagView::Item => Some(Element::Li),
        TagView::Table(_) => Some(Element::Table),
        TagView::TableHead => Some(Element::Thead),
        TagView::TableRow => Some(Element::Trow),
        TagView::TableCell => Some(Element::Tcell(cell_align)),
        TagView::Emphasis => Some(Element::Italics),
        TagView::Strong => Some(Element::Bold),
        TagView::Strikethrough => Some(Element::StrikeThrough),
        _ => None,
    }
}

/// Whether `children` is one run of text among `nodes`.
pub open spec fn single_text(nodes: Seq<NodeView>, children: Seq<usize>) -> bool {
    children.len() == 1 && children[0] < nodes.len() && nodes[children[0] as int].kind is Text
}

/// The node that an open container becomes when it closes.
pub open spec fn closed_node(s: Setting, nodes: Seq<NodeView>, f: FrameView) -> NodeView {
    let r = f.range;
    let text = match f.text {
        Some(t) => t,
        None => seq![],
    };
    match f.tag {
        Some(TagView::CodeBlock(Some(lang))) => match highlighted(text, lang, s.theme) {
            Some(x) => leaf_node(Kind::InnerHtml(Element::Div, x), r),
            None => leaf_node(Kind::CodeBlock(text), r),
        },
        Some(TagView::CodeBlock(None)) => leaf_node(Kind::CodeBlock(text), r),
        Some(TagView::HtmlBlock) => leaf_node(Kind::InnerHtml(Element::Div, text), r),
        Some(TagView::Component { name, attributes }) => if s.components.contains(name) {
            NodeView { kind: Kind::Component(name, attributes), children: f.children, range: Some(r) }
        } else {
            leaf_node(Kind::Error(HtmlError::UnknownComponent), r)
        },
        Some(TagView::MetadataBlock) => leaf_node(Kind::Frontmatter(text), r),
        Some(TagView::FootnoteDefinition(_)) => leaf_node(Kind::Error(HtmlError::FootnoteDefinition), r),
        Some(TagView::Link { link_type, dest_url, title }) => if s.custom_links {
            NodeView {
                kind: Kind::Link { link_type, url: dest_url, title: title, image: false },
                children: f.children,
                range: Some(r),
            }
        } else if single_text(nodes, f.children) {
            NodeView { kind: Kind::Anchor(dest_url), children: f.children, range: Some(r) }
        } else {
            leaf_node(Kind::Error(HtmlError::LinkContent), r)
        },
        Some(TagView::Image { link_type, dest_url, title }) => if s.custom_links {
            NodeView {
                kind: Kind::Link { link_type, url: dest_url, title: title, image: true },
                children: f.children,
                range: Some(r),
            }
        } else {
            leaf_node(Kind::Image(dest_url, title), r)
        },
        Some(t) => match element_of(t, f.cell_align) {
            Some(e) => NodeView { kind: Kind::Element(e), children: f.children, range: Some(r) },
            None => leaf_node(Kind::Element(Element::Span), r),
        },
        None => leaf_node(Kind::Element(Element::Div), r),
    }
}

/// `m` with its innermost container closed and added to the one around it.
pub open spec fn close(s: Setting, m: Machine) -> Machine {
    let f = m.stack.last();
    emit(Machine { nodes: m.nodes, stack: m.stack.drop_last() }, closed_node(s, m.nodes, f))
}

/// `m` with a container opened by `tag` at `r`. A table gives its column
/// alignments to what it holds; a cell takes the alignment of the next
/// column of the row it is in.
pub open spec fn open(m: Machine, tag: TagView, r: ByteRange) -> Result<Machine, StructureError> {
    let t = m.stack.last();
    let fresh = |align: Option<Seq<Alignment>>, cell_align: Alignment| FrameView {
        tag: Some(tag),
        range: r,
        children: seq![],
        align,
        cell: 0,
        cell_align,
        text: None,
    };
    match tag {
        TagView::TableCell => match t.align {
            Some(a) => if t.cell < a.len() {
                let counted = FrameView {
                    tag: t.tag,
                    range: t.range,
                    children: t.children,
                    align: t.align,
                    cell: t.cell + 1,
                    cell_align: t.cell_align,
                    text: t.text,
                };
                Ok(
                    Machine {
                        nodes: m.nodes,
                        stack: m.stack.update(m.stack.len() - 1, counted).push(
                            fresh(t.align, a[t.cell as int]),
                        ),
                    },
                )
            } else {
                Err(StructureError::CellOutsideTable)
            },
            None => Err(StructureError::CellOutsideTable),
        },
        TagView::Table(a) => Ok(
            Machine { nodes: m.nodes, stack: m.stack.push(fresh(Some(a), Alignment::Unaligned)) },
        ),
        _ => Ok(Machine { nodes: m.nodes, stack: m.stack.push(fresh(t.align, Alignment::Unaligned)) }),
    }
}

/// What one event does to the machine.
pub open spec fn step(s: Setting, m: Machine, ev: Event, r: ByteRange) -> Result<Machine, StructureError> {
    let t = m.stack.last();
    if is_literal(t.tag) {
        if t.text is None && payload(t.tag, ev) is Some {
            Ok(
                Machine {
                    nodes: m.nodes,
                    stack: m.stack.update(
                        m.stack.len() - 1,
                        FrameView {
                            tag: t.tag,
                            range: t.range,
                            children: t.children,
                            align: t.align,
                            cell: t.cell,
                            cell_align: t.cell_align,
                            text: payload(t.tag, ev),
                        },
                    ),
                },
            )
        } else if t.text is Some && ev == Event::End(closing(t.tag->0)) {
            Ok(close_literal(s, m))
        } else {
            Err(StructureError::UnexpectedEvent)
        }
    } else {
        match ev {
            Event::Start(tag) => open(m, tag@, r),
            Event::Text(t) => Ok(emit_all(m, text_nodes(s, t@, r))),
            Event::Html(h) => Ok(html_event(s, m, h@, Element::Span, r)),
            Event::InlineHtml(h) => Ok(html_event(s, m, h@, Element::Span, r)),
            Event::End(e) => {
                let m1 = if e == TagEnd::Component {
                    m
                } else {
                    close_components(s, m)
                };
                let t1 = m1.stack.last();
                if m1.stack.len() <= 1 {
                    Err(StructureError::UnexpectedEnd(e))
                } else if closing(t1.tag->0) != e {
                    Err(StructureError::MismatchedEnd(closing(t1.tag->0), e))
                } else {
                    Ok(close(s, m1))
                }
            },
            _ => match leaf(s, ev, r) {
                Some(n) => Ok(emit(m, n)),
                None => Ok(m),
            },
        }
    }
}

/// The machine after the events `evs[i..]`, from `m`.
pub open spec fn run(s: Setting, evs: Seq<(Event, ByteRange)>, i: nat, m: Machine) -> Result<Machine, StructureError>
    decreases evs.len() - i,
{
    if i >= evs.len() {
        Ok(m)
    } else {
        match step(s, m, evs[i as int].0, evs[i as int].1) {
            Ok(m2) => run(s, evs, i + 1, m2),
            Err(e) => Err(e),
        }
    }
}

/// The document that a machine stands for once every event is read.
pub open spec fn finished(m: Machine) -> Result<DocumentView, StructureError> {
    if m.stack.len() == 1 {
        Ok(DocumentView { nodes: m.nodes, roots: m.stack[0].children })
    } else {
        Err(StructureError::Unclosed)
    }
}

/// The document rendered from the events `evs`; component containers still
/// open at the end are closed.
pub open spec fn rendered(s: Setting, evs: Seq<(Event, ByteRange)>) -> Result<DocumentView, StructureError> {
    match run(s, evs, 0, initial_machine()) {
        Ok(m) => finished(close_components(s, m)),
        Err(e) => Err(e),
    }
}


/// An open container.
struct Frame {
    tag: Option<Tag>,
    range: ByteRange,
    children: Vec<usize>,
    align: Option<Vec<Alignment>>,
    cell: usize,
    cell_align: Alignment,
    text: Option<String>,
}

impl View for Frame {
    type V = FrameView;

    closed spec fn view(&self) -> FrameView {
        FrameView {
            tag: tag_view(self.tag),
            range: self.range,
            children: self.children@,
            align: match self.align {
                Some(a) => Some(a@),
                None => None,
            },
            cell: self.cell as nat,
            cell_align: self.cell_align,
            text: match self.text {
                Some(t) => Some(t@),
                None => None,
            },
        }
    }
}

/// The mathematical value of an optional tag.
pub open spec fn tag_view(t: Option<Tag>) -> Option<TagView> {
    match t {
        Some(x) => Some(x@),
        None => None,
    }
}

/// The mathematical value of a rendering result.
pub open spec fn result_view(r: Result<Document, StructureError>) -> Result<DocumentView, StructureError> {
    match r {
        Ok(d) => Ok(d@),
        Err(e) => Err(e),
    }
}

fn copy_alignments(a: &Vec<Alignment>) -> (r: Vec<Alignment>)
    ensures
        r@ == a@,
{
    let mut r: Vec<Alignment> = Vec::new();
    let mut i: usize = 0;
    while i < a.len()
        invariant
            i <= a@.len(),
            r@ == a@.subrange(0, i as int),
        decreases a@.len() - i,
    {
        r.push(a[i]);
        i = i + 1;
        proof {
            assert(r@ =~= a@.subrange(0, i as int));
        }
    }
    proof {
        assert(r@ =~= a@);
    }
    r
}

fn copy_tag(t: &Tag) -> (r: Tag)
    ensures
        r@ == t@,
{
    match t {
        Tag::Paragraph => Tag::Paragraph,
        Tag::Heading(l) => Tag::Heading(*l),
        Tag::BlockQuote => Tag::BlockQuote,
        Tag::CodeBlock(CodeBlockKind::Indented) => Tag::CodeBlock(CodeBlockKind::Indented),
        Tag::CodeBlock(CodeBlockKind::Fenced(l)) => Tag::CodeBlock(CodeBlockKind::Fenced(l.clone())),
        Tag::HtmlBlock => Tag::HtmlBlock,
        Tag::List(n) => Tag::List(*n),
        Tag::Item => Tag::Item,
        Tag::FootnoteDefinition(l) => Tag::FootnoteDefinition(l.clone()),
        Tag::Table(a) => {
            Tag::Table(copy_alignments(a))
        },
        Tag::TableHead => Tag::TableHead,
        Tag::TableRow => Tag::TableRow,
        Tag::TableCell => Tag::TableCell,
        Tag::Emphasis => Tag::Emphasis,
        Tag::Strong => Tag::Strong,
        Tag::Strikethrough => Tag::Strikethrough,
        Tag::Link { link_type, dest_url, title } => Tag::Link {
            link_type: *link_type,
            dest_url: dest_url.clone(),
            title: title.clone(),
        },
        Tag::Image { link_type, dest_url, title } => Tag::Image {
            link_type: *link_type,
            dest_url: dest_url.clone(),
            title: title.clone(),
        },
        Tag::MetadataBlock => Tag::MetadataBlock,
        Tag::Component { name, attributes } => {
            let a = copy_pairs(attributes);
            proof {
                assert(a@.map_values(|p: (String, String)| (p.0@, p.1@)) =~= pairs_view(a@));
                assert(attributes@.map_values(|p: (String, String)| (p.0@, p.1@)) =~= pairs_view(attributes@));
            }
            Tag::Component { name: name.clone(), attributes: a }
        },
    }
}

fn is_literal_tag(tag: &Option<Tag>) -> (r: bool)
    ensures
        r == is_literal(tag_view(*tag)),
{
    match tag {
        Some(Tag::CodeBlock(_)) => true,
        Some(Tag::HtmlBlock) => true,
        Some(Tag::MetadataBlock) => true,
        _ => false,
    }
}

fn payload_of(tag: &Option<Tag>, ev: &Event) -> (r: Option<String>)
    ensures
        match r {
            Some(t) => payload(tag_view(*tag), *ev) == Some(t@),
            None => payload(tag_view(*tag), *ev) is None,
        },
{
    match (tag, ev) {
        (Some(Tag::CodeBlock(_)), Event::Text(s)) => Some(s.clone()),
        (Some(Tag::MetadataBlock), Event::Text(s)) => Some(s.clone()),
        (Some(Tag::HtmlBlock), Event::Html(s)) => Some(s.clone()),
        _ => None,
    }
}

fn element_for(tag: &Tag, cell_align: Alignment) -> (r: Option<Element>)
    ensures
        r == element_of(tag@, cell_align),
{
    match tag {
        Tag::Paragraph => Some(Element::Paragraph),
        Tag::Heading(l) => Some(Element::Heading(*l)),
        Tag::BlockQuote => Some(Element::BlockQuote),
        Tag::List(Some(n)) => Some(Element::Ol(*n)),
        Tag::List(None) => Some(Element::Ul),
        Tag::Item => Some(Element::Li),
        Tag::Table(_) => Some(Element::Table),
        Tag::TableHead => Some(Element::Thead),
        Tag::TableRow => Some(Element::Trow),
        Tag::TableCell => Some(Element::Tcell(cell_align)),
        Tag::Emphasis => Some(Element::Italics),
        Tag::Strong => Some(Element::Bold),
        Tag::Strikethrough => Some(Element::StrikeThrough),
        _ => None,
    }
}

fn leaf_of(kind: NodeKind, r: ByteRange) -> (n: Node)
    ensures
        n@ == leaf_node(kind@, r),
{
    let n = Node { kind, children: Vec::new(), range: Some(r) };
    proof {
        assert(n@.children =~= Seq::<usize>::empty());
    }
    n
}

fn is_capitalized_exec(n: &String) -> (b: bool)
    ensures
        b == is_capitalized(n@),
{
    n.as_str().unicode_len() > 0 && 'A' <= n.as_str().get_char(0) && n.as_str().get_char(0) <= 'Z'
}

fn markup_node_exec(context: &RenderContext, n: &String, html: String, e: Element, r: ByteRange) -> (x: Node)
    ensures
        x@ == markup_node(context@, n@, html@, e, r),
{
    if is_capitalized_exec(n) {
        leaf_of(NodeKind::Error(HtmlError::UnknownComponent), r)
    } else {
        leaf_of(NodeKind::InnerHtml(e, html), r)
    }
}

fn copy_pairs(a: &Vec<(String, String)>) -> (r: Vec<(String, String)>)
    ensures
        pairs_view(r@) == pairs_view(a@),
{
    let mut r: Vec<(String, String)> = Vec::new();
    let mut i: usize = 0;
    while i < a.len()
        invariant
            i <= a@.len(),
            r@.len() == i,
            forall|j: int| 0 <= j < i ==> (#[trigger] r@[j]).0@ == a@[j].0@ && r@[j].1@ == a@[j].1@,
        decreases a@.len() - i,
    {
        r.push((a[i].0.clone(), a[i].1.clone()));
        i = i + 1;
    }
    proof {
        assert(pairs_view(r@) =~= pairs_view(a@));
    }
    r
}

fn piece_to_node(p: &Inline, r: ByteRange) -> (n: Node)
    ensures
        n@ == piece_node(p@, r),
{
    match p {
        Inline::Text(t, _) => leaf_of(NodeKind::Text(t.clone()), r),
        Inline::WikiLink { target, alias, .. } => {
            let a = match alias {
                Some(x) => Some(x.clone()),
                None => None,
            };
            leaf_of(NodeKind::WikiLink { target: target.clone(), alias: a }, r)
        },
    }
}

/// Renders the text of a text event at `r`, recognising wikilinks in it
/// where the context asks for them.
pub fn render_text(context: &RenderContext, text: &String, r: ByteRange) -> (ns: Vec<Node>)
    ensures
        nodes_view(ns@) == text_nodes(context@, text@, r),
{
    if context.wikilinks && fits_from_origin(text.as_str()) {
        let pieces = parse_wikilinks(text.as_str(), Point::new(1, 1, 0));
        let ghost pv = inlines_view(pieces@);
        let mut out: Vec<Node> = Vec::new();
        let mut k: usize = 0;
        while k < pieces.len()
            invariant
                k <= pieces@.len(),
                pv == inlines_view(pieces@),
                out@.len() == k,
                forall|j: int| 0 <= j < k ==> (#[trigger] out@[j])@ == piece_node(pv[j], r),
            decreases pieces@.len() - k,
        {
            let n = piece_to_node(&pieces[k], r);
            out.push(n);
            k = k + 1;
        }
        proof {
            assert(nodes_view(out@) =~= pv.map_values(|p: InlineView| piece_node(p, r)));
        }
        out
    } else {
        let mut out: Vec<Node> = Vec::new();
        out.push(leaf_of(NodeKind::Text(text.clone()), r));
        proof {
            assert(nodes_view(out@) =~= text_nodes(context@, text@, r));
        }
        out
    }
}

/// Renders a markup event that makes a node on its own, or `None` for a soft
/// break, which makes none, and for text.
pub fn render_leaf(context: &RenderContext, ev: &Event, r: ByteRange) -> (n: Option<Node>)
    ensures
        match n {
            Some(x) => leaf(context@, *ev, r) == Some(x@),
            None => leaf(context@, *ev, r) is None,
        },
{
    match ev {
        Event::Code(s) => Some(leaf_of(NodeKind::InlineCode(s.clone()), r)),
        Event::FootnoteReference(_) => Some(
            leaf_of(NodeKind::Error(HtmlError::FootnoteReference), r),
        ),
        Event::HardBreak => Some(leaf_of(NodeKind::Element(Element::Br), r)),
        Event::Rule => Some(leaf_of(NodeKind::Element(Element::Hr), r)),
        Event::TaskListMarker(b) => Some(leaf_of(NodeKind::Element(Element::Checkbox(*b)), r)),
        Event::Math(mode, s) => Some(render_maths(s.as_str(), *mode, r)),
        _ => None,
    }
}

/// The KaTeX markup of an inline formula; empty where KaTeX rejects it.
pub fn render_to_string(input: &str) -> (r: String)
    ensures
        match math_markup(input@, false) {
            Some(m) => r@ == m,
            None => r@ == Seq::<char>::empty(),
        },
{
    match compile_math(input, false) {
        Some(m) => m,
        None => String::new(),
    }
}

/// Renders a formula: its compiled markup, or a diagnostic where KaTeX
/// rejects it.
pub fn render_maths(content: &str, mode: MathMode, r: ByteRange) -> (n: Node)
    ensures
        n@ == (match math_markup(content@, mode == MathMode::Display) {
            Some(x) => leaf_node(Kind::Math(mode, x), r),
            None => leaf_node(Kind::Error(HtmlError::InvalidMath), r),
        }),
{
    let display = match mode {
        MathMode::Display => true,
        MathMode::Inline => false,
    };
    match compile_math(content, display) {
        Some(x) => leaf_of(NodeKind::Math(mode, x), r),
        None => leaf_of(NodeKind::Error(HtmlError::InvalidMath), r),
    }
}


/// A renderer partway through an event stream.
pub struct Renderer<'a> {
    context: &'a RenderContext,
    nodes: Vec<Node>,
    stack: Vec<Frame>,
}

/// The mathematical value of a stack of open containers.
spec fn frames_view(v: Seq<Frame>) -> Seq<FrameView> {
    v.map_values(|f: Frame| f@)
}

impl<'a> View for Renderer<'a> {
    type V = Machine;

    closed spec fn view(&self) -> Machine {
        Machine { nodes: nodes_view(self.nodes@), stack: frames_view(self.stack@) }
    }
}

impl<'a> Renderer<'a> {
    /// The setting that the renderer works in.
    pub closed spec fn setting(&self) -> Setting {
        self.context@
    }

    /// The document is open, innermost containers above it.
    pub closed spec fn wf(&self) -> bool {
        well_formed(self@)
    }

    /// A renderer that has read no event yet.
    pub fn new(context: &'a RenderContext) -> (r: Renderer<'a>)
        ensures
            r.wf(),
            r@ == initial_machine(),
            r.setting() == context@,
    {
        let root = Frame {
            tag: None,
            range: ByteRange { start: 0, end: 0 },
            children: Vec::new(),
            align: None,
            cell: 0,
            cell_align: Alignment::Unaligned,
            text: None,
        };
        let mut stack: Vec<Frame> = Vec::new();
        stack.push(root);
        let r = Renderer { context, nodes: Vec::new(), stack };
        proof {
            assert(r@.nodes =~= initial_machine().nodes);
            assert(r@.stack[0].children =~= Seq::<usize>::empty());
            assert(r@.stack =~= initial_machine().stack);
        }
        r
    }

    fn pop_frame(&mut self) -> (f: Frame)
        requires
            old(self).wf(),
        ensures
            f@ == old(self)@.stack.last(),
            final(self)@ == (Machine { nodes: old(self)@.nodes, stack: old(self)@.stack.drop_last() }),
            final(self).context == old(self).context,
            final(self).stack@.len() == old(self).stack@.len() - 1,
    {
        let f = self.stack.pop().unwrap();
        proof {
            assert(frames_view(self.stack@) =~= frames_view(old(self).stack@).drop_last());
        }
        f
    }

    fn push_frame(&mut self, f: Frame)
        ensures
            final(self)@ == (Machine { nodes: old(self)@.nodes, stack: old(self)@.stack.push(f@) }),
            final(self).context == old(self).context,
    {
        self.stack.push(f);
        proof {
            assert(frames_view(self.stack@) =~= frames_view(old(self).stack@).push(f@));
        }
    }

    /// Adds `node` as the last child of the innermost open container.
    fn emit(&mut self, node: Node)
        requires
            old(self).wf(),
        ensures
            final(self).wf(),
            final(self)@ == emit(old(self)@, node@),
            final(self).context == old(self).context,
    {
        let idx = self.nodes.len();
        self.nodes.push(node);
        let mut top = self.pop_frame();
        top.children.push(idx);
        self.push_frame(top);
        proof {
            assert(nodes_view(self.nodes@) =~= nodes_view(old(self).nodes@).push(node@));
            assert(self@.stack =~= emit(old(self)@, node@).stack);
        }
    }

    /// Whether the innermost open container is the component named `n`.
    fn is_open_component_exec(&self, n: &String) -> (b: bool)
        requires
            self.wf(),
        ensures
            b == is_open_component(self@, n@),
    {
        let last = self.stack.len() - 1;
        proof {
            assert(self@.stack.last() == self.stack@[last as int]@);
        }
        last >= 1 && match &self.stack[last].tag {
            Some(Tag::Component { name, .. }) => *name == *n,
            _ => false,
        }
    }

    /// Does what the markup `html` at `r` does.
    fn html_event(&mut self, html: String, e: Element, r: ByteRange)
        requires
            old(self).wf(),
        ensures
            final(self).wf(),
            final(self)@ == html_event(old(self).setting(), old(self)@, html@, e, r),
            final(self).context == old(self).context,
    {
        match parse_component(html.as_str()) {
            Some((name, attributes, true)) => {
                if self.context.has_custom_component(&name) {
                    let n = leaf_of(NodeKind::Component(name, attributes), r);
                    proof {
                        assert(crate::html::attributes_view(attributes@) =~= pairs_view(attributes@));
                    }
                    self.emit(n);
                } else {
                    let n = markup_node_exec(self.context, &name, html, e, r);
                    self.emit(n);
                }
            },
            Some((name, attributes, false)) => {
                if self.context.has_custom_component(&name) {
                    let tag = Tag::Component { name, attributes };
                    proof {
                        assert(attributes@.map_values(|p: (String, String)| (p.0@, p.1@)) =~= pairs_view(attributes@));
                    }
                    let _ = self.open(&tag, r);
                } else {
                    let n = markup_node_exec(self.context, &name, html, e, r);
                    self.emit(n);
                }
            },
            None => {
                let closes = match parse_closing_tag(html.as_str()) {
                    Some(n) => self.is_open_component_exec(&n),
                    None => false,
                };
                if closes {
                    self.close();
                } else {
                    self.emit(leaf_of(NodeKind::InnerHtml(e, html), r));
                }
            },
        }
    }

    /// Closes every component container that is innermost, one after the
    /// other.
    fn close_components(&mut self)
        requires
            old(self).wf(),
        ensures
            final(self).wf(),
            final(self)@ == close_components(old(self).setting(), old(self)@),
            final(self).context == old(self).context,
    {
        loop
            invariant
                self.wf(),
                self.context == old(self).context,
                close_components(self.setting(), self@) == close_components(old(self).setting(), old(self)@),
            decreases self@.stack.len(),
        {
            let last = self.stack.len() - 1;
            proof {
                assert(self@.stack.last() == self.stack@[last as int]@);
            }
            let is_component = last >= 1 && match &self.stack[last].tag {
                Some(Tag::Component { .. }) => true,
                _ => false,
            };
            if !is_component {
                return;
            }
            self.close();
        }
    }

    /// Closes the innermost container, a code, html or metadata block.
    fn close_literal(&mut self)
        requires
            old(self).wf(),
            old(self)@.stack.len() >= 2,
        ensures
            final(self).wf(),
            final(self)@ == close_literal(old(self).setting(), old(self)@),
            final(self).context == old(self).context,
    {
        let last = self.stack.len() - 1;
        proof {
            assert(self@.stack.last() == self.stack@[last as int]@);
        }
        let is_html = match &self.stack[last].tag {
            Some(Tag::HtmlBlock) => true,
            _ => false,
        };
        if is_html {
            let f = self.pop_frame();
            let text = match f.text {
                Some(t) => t,
                None => String::new(),
            };
            self.html_event(text, Element::Div, f.range);
        } else {
            self.close();
        }
    }

    /// Adds the nodes `ns` in order to the innermost open container.
    fn emit_all(&mut self, nodes: Vec<Node>)
        requires
            old(self).wf(),
        ensures
            final(self).wf(),
            final(self)@ == emit_all(old(self)@, nodes_view(nodes@)),
            final(self).context == old(self).context,
    {
        let mut ns = nodes;
        while ns.len() > 0
            invariant
                self.wf(),
                self.context == old(self).context,
                emit_all(self@, nodes_view(ns@)) == emit_all(old(self)@, nodes_view(nodes@)),
            decreases ns@.len(),
        {
            let ghost before = nodes_view(ns@);
            let n = ns.remove(0);
            proof {
                assert(nodes_view(ns@) =~= before.subrange(1, before.len() as int));
            }
            self.emit(n);
        }
        proof {
            assert(nodes_view(ns@) =~= Seq::<NodeView>::empty());
        }
    }

    /// The node that the container `f` becomes when it closes.
    fn closed_node(&self, f: Frame) -> (n: Node)
        ensures
            n@ == closed_node(self.setting(), self@.nodes, f@),
    {
        let r = f.range;
        let text = match f.text {
            Some(t) => t,
            None => String::new(),
        };
        match f.tag {
            Some(Tag::CodeBlock(CodeBlockKind::Fenced(lang))) => {
                match highlight_code(self.context, text.as_str(), lang.as_str()) {
                    Some(x) => leaf_of(NodeKind::InnerHtml(Element::Div, x), r),
                    None => leaf_of(NodeKind::CodeBlock(text), r),
                }
            },
            Some(Tag::CodeBlock(CodeBlockKind::Indented)) => leaf_of(NodeKind::CodeBlock(text), r),
            Some(Tag::HtmlBlock) => leaf_of(NodeKind::InnerHtml(Element::Div, text), r),
            Some(Tag::Component { name, attributes }) => {
                if self.context.has_custom_component(&name) {
                    proof {
                        assert(crate::html::attributes_view(attributes@) =~= attributes@.map_values(
                            |p: (String, String)| (p.0@, p.1@),
                        ));
                    }
                    Node { kind: NodeKind::Component(name, attributes), children: f.children, range: Some(r) }
                } else {
                    leaf_of(NodeKind::Error(HtmlError::UnknownComponent), r)
                }
            },
            Some(Tag::MetadataBlock) => leaf_of(NodeKind::Frontmatter(text), r),
            Some(Tag::FootnoteDefinition(_)) => leaf_of(
                NodeKind::Error(HtmlError::FootnoteDefinition),
                r,
            ),
            Some(Tag::Link { link_type, dest_url, title }) => {
                if self.context.custom_links {
                    Node {
                        kind: NodeKind::Link { link_type, url: dest_url, title, image: false },
                        children: f.children,
                        range: Some(r),
                    }
                } else if self.single_text(&f.children) {
                    Node { kind: NodeKind::Anchor(dest_url), children: f.children, range: Some(r) }
                } else {
                    leaf_of(NodeKind::Error(HtmlError::LinkContent), r)
                }
            },
            Some(Tag::Image { link_type, dest_url, title }) => {
                if self.context.custom_links {
                    Node {
                        kind: NodeKind::Link { link_type, url: dest_url, title, image: true },
                        children: f.children,
                        range: Some(r),
                    }
                } else {
                    leaf_of(NodeKind::Image(dest_url, title), r)
                }
            },
            Some(t) => match element_for(&t, f.cell_align) {
                Some(e) => Node { kind: NodeKind::Element(e), children: f.children, range: Some(r) },
                None => leaf_of(NodeKind::Element(Element::Span), r),
            },
            None => leaf_of(NodeKind::Element(Element::Div), r),
        }
    }

    fn single_text(&self, children: &Vec<usize>) -> (b: bool)
        ensures
            b == single_text(self@.nodes, children@),
    {
        if children.len() == 1 && children[0] < self.nodes.len() {
            match &self.nodes[children[0]].kind {
                NodeKind::Text(_) => true,
                _ => false,
            }
        } else {
            false
        }
    }
}


impl<'a> Renderer<'a> {
    /// Closes the innermost container.
    fn close(&mut self)
        requires
            old(self).wf(),
            old(self)@.stack.len() >= 2,
        ensures
            final(self).wf(),
            final(self)@ == close(old(self).setting(), old(self)@),
            final(self).context == old(self).context,
    {
        let f = self.pop_frame();
        let n = self.closed_node(f);
        self.emit(n);
    }

    /// Opens a container for `tag` at `r`.
    fn open(&mut self, tag: &Tag, r: ByteRange) -> (res: Result<(), StructureError>)
        requires
            old(self).wf(),
        ensures
            final(self).wf(),
            final(self).context == old(self).context,
            match open(old(self)@, tag@, r) {
                Ok(m) => res is Ok && final(self)@ == m,
                Err(e) => res == Err::<(), StructureError>(e),
            },
    {
        let last = self.stack.len() - 1;
        let t = copy_tag(tag);
        match tag {
            Tag::TableCell => {
                let (ok, ca) = match &self.stack[last].align {
                    Some(a) => if self.stack[last].cell < a.len() {
                        (true, a[self.stack[last].cell])
                    } else {
                        (false, Alignment::Unaligned)
                    },
                    None => (false, Alignment::Unaligned),
                };
                if !ok {
                    return Err(StructureError::CellOutsideTable);
                }
                let mut top = self.pop_frame();
                let inherited = match &top.align {
                    Some(a) => Some(copy_alignments(a)),
                    None => None,
                };
                top.cell = top.cell + 1;
                self.push_frame(top);
                let f = Frame {
                    tag: Some(t),
                    range: r,
                    children: Vec::new(),
                    align: inherited,
                    cell: 0,
                    cell_align: ca,
                    text: None,
                };
                proof {
                    assert(f@.children =~= Seq::<usize>::empty());
                }
                self.push_frame(f);
                proof {
                    let m = old(self)@;
                    let tt = m.stack.last();
                    let counted = FrameView {
                        tag: tt.tag,
                        range: tt.range,
                        children: tt.children,
                        align: tt.align,
                        cell: tt.cell + 1,
                        cell_align: tt.cell_align,
                        text: tt.text,
                    };
                    assert(m.stack.drop_last().push(counted) =~= m.stack.update(m.stack.len() - 1, counted));
                }
                Ok(())
            },
            Tag::Table(a) => {
                let f = Frame {
                    tag: Some(t),
                    range: r,
                    children: Vec::new(),
                    align: Some(copy_alignments(a)),
                    cell: 0,
                    cell_align: Alignment::Unaligned,
                    text: None,
                };
                proof {
                    assert(f@.children =~= Seq::<usize>::empty());
                }
                self.push_frame(f);
                Ok(())
            },
            _ => {
                let inherited = match &self.stack[last].align {
                    Some(a) => Some(copy_alignments(a)),
                    None => None,
                };
                let f = Frame {
                    tag: Some(t),
                    range: r,
                    children: Vec::new(),
                    align: inherited,
                    cell: 0,
                    cell_align: Alignment::Unaligned,
                    text: None,
                };
                proof {
                    assert(f@.children =~= Seq::<usize>::empty());
                }
                self.push_frame(f);
                Ok(())
            },
        }
    }
}


impl<'a> Renderer<'a> {
    /// Reads one event with the source range that produced it.
    pub fn step(&mut self, ev: &Event, r: ByteRange) -> (res: Result<(), StructureError>)
        requires
            old(self).wf(),
        ensures
            final(self).wf(),
            final(self).setting() == old(self).setting(),
            match step(old(self).setting(), old(self)@, *ev, r) {
                Ok(m) => res is Ok && final(self)@ == m,
                Err(e) => res == Err::<(), StructureError>(e),
            },
    {
        let last = self.stack.len() - 1;
        proof {
            assert(self@.stack.last() == self.stack@[last as int]@);
        }
        if is_literal_tag(&self.stack[last].tag) {
            let has_text = self.stack[last].text.is_some();
            if !has_text {
                match payload_of(&self.stack[last].tag, ev) {
                    Some(p) => {
                        let mut top = self.pop_frame();
                        top.text = Some(p);
                        self.push_frame(top);
                        proof {
                            let m = old(self)@;
                            let t = m.stack.last();
                            let updated = FrameView {
                                tag: t.tag,
                                range: t.range,
                                children: t.children,
                                align: t.align,
                                cell: t.cell,
                                cell_align: t.cell_align,
                                text: payload(t.tag, *ev),
                            };
                            assert(m.stack.drop_last().push(updated) =~= m.stack.update(m.stack.len() - 1, updated));
                        }
                        return Ok(());
                    },
                    None => {},
                }
            }
            let closes = match (&self.stack[last].tag, ev) {
                (Some(t), Event::End(e)) => *e == as_closing_tag(t),
                _ => false,
            };
            if has_text && closes && last >= 1 {
                self.close_literal();
                Ok(())
            } else {
                Err(StructureError::UnexpectedEvent)
            }
        } else {
            match ev {
                Event::Start(tag) => self.open(tag, r),
                Event::Text(t) => {
                    let ns = render_text(self.context, t, r);
                    self.emit_all(ns);
                    Ok(())
                },
                Event::Html(h) => {
                    self.html_event(h.clone(), Element::Span, r);
                    Ok(())
                },
                Event::InlineHtml(h) => {
                    self.html_event(h.clone(), Element::Span, r);
                    Ok(())
                },
                Event::End(e) => {
                    if *e != TagEnd::Component {
                        self.close_components();
                    }
                    let last = self.stack.len() - 1;
                    if last == 0 {
                        return Err(StructureError::UnexpectedEnd(*e));
                    }
                    proof {
                        assert(self@.stack.last() == self.stack@[last as int]@);
                    }
                    let expected = match &self.stack[last].tag {
                        Some(t) => as_closing_tag(t),
                        None => TagEnd::Paragraph,
                    };
                    if expected != *e {
                        Err(StructureError::MismatchedEnd(expected, *e))
                    } else {
                        self.close();
                        Ok(())
                    }
                },
                _ => match render_leaf(self.context, ev, r) {
                    Some(n) => {
                        self.emit(n);
                        Ok(())
                    },
                    None => Ok(()),
                },
            }
        }
    }

    /// The rendered document, once every event is read.
    pub fn finish(self) -> (r: Result<Document, StructureError>)
        requires
            self.wf(),
        ensures
            result_view(r) == finished(close_components(self.setting(), self@)),
    {
        let mut me = self;
        me.close_components();
        if me.stack.len() == 1 {
            let root = me.pop_frame();
            let d = Document { nodes: me.nodes, roots: root.children };
            Ok(d)
        } else {
            Err(StructureError::Unclosed)
        }
    }
}

/// Renders a stream of events, each with the source range that produced it,
/// into a document; fails on the first break in their nesting.
pub fn render(context: &RenderContext, events: &[(Event, ByteRange)]) -> (r: Result<Document, StructureError>)
    ensures
        result_view(r) == rendered(context@, events@),
{
    let mut renderer = Renderer::new(context);
    let mut i: usize = 0;
    while i < events.len()
        invariant
            i <= events@.len(),
            renderer.wf(),
            renderer.setting() == context@,
            run(context@, events@, 0, initial_machine()) == run(context@, events@, i as nat, renderer@),
        decreases events@.len() - i,
    {
        match renderer.step(&events[i].0, events[i].1) {
            Ok(()) => {},
            Err(e) => {
                return Err(e);
            },
        }
        i = i + 1;
    }
    renderer.finish()
}

} // verus!
