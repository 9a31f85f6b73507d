//! The rendered tree: nodes kept in one vector and referring to their
//! children by index, each with the source range that its click handler
//! reports.
use vstd::prelude::*;
use crate::event::{Alignment, ByteRange, HeadingLevel, LinkType, MathMode};

verus! {

/// An element of the output markup.
#[derive(Clone, Copy, Debug, PartialEq, Eq, Structural)]
pub enum Element {
    Div,
    Span,
    Paragraph,
    Heading(HeadingLevel),
    BlockQuote,
    Ol(u64),
    Ul,
    Li,
    Table,
    Thead,
    Trow,
    Tcell(Alignment),
    Italics,
    Bold,
    StrikeThrough,
    Hr,
    Br,
    Checkbox(bool),
}

/// A problem that spoils one node and leaves the rest of the tree as it is.
#[derive(Clone, Copy, Debug, PartialEq, Eq, Structural)]
pub enum HtmlError {
    FootnoteReference,
    FootnoteDefinition,
    InvalidMath,
    LinkContent,
    UnknownComponent,
}

/// What a node shows.
#[derive(Clone, Debug, PartialEq, Eq)]
pub enum NodeKind {
    /// An element around the node's children.
    Element(Element),
    /// An element whose content is the given markup, inserted as it is.
    InnerHtml(Element, String),
    /// A run of text.
    Text(String),
    /// A wikilink to `target`, shown as `alias` where it has one.
    WikiLink { target: String, alias: Option<String> },
    /// Inline code.
    InlineCode(String),
    /// A code block that no grammar highlighted.
    CodeBlock(String),
    /// A formula compiled to markup.
    Math(MathMode, String),
    /// A link around the node's children, to the given address.
    Anchor(String),
    /// An image with its address and its alternative text.
    Image(String, String),
    /// A link or image handed to the embedder's link renderer; its children
    /// are the link's content.
    Link { link_type: LinkType, url: String, title: String, image: bool },
    /// An element handled by a registered component, with its attributes.
    Component(String, Vec<(String, String)>),
    /// The document's front matter.
    Frontmatter(String),
    /// A diagnostic in place of a node that could not be rendered.
    Error(HtmlError),
}

/// One node of the rendered tree.
#[derive(Clone, Debug, PartialEq, Eq)]
pub struct Node {
    pub kind: NodeKind,
    /// Indices of the children in the document's node vector, in order.
    pub children: Vec<usize>,
    /// The source range that the node's click handler reports.
    pub range: Option<ByteRange>,
}

/// A rendered document: every node, and the indices of the top-level ones.
#[derive(Clone, Debug, PartialEq, Eq)]
pub struct Document {
    pub nodes: Vec<Node>,
    pub roots: Vec<usize>,
}

/// The mathematical value of a [`NodeKind`].
pub enum Kind {
    Element(Element),
    InnerHtml(Element, Seq<char>),
    Text(Seq<char>),
    WikiLink { target: Seq<char>, alias: Option<Seq<char>> },
    InlineCode(Seq<char>),
    CodeBlock(Seq<char>),
    Math(MathMode, Seq<char>),
    Anchor(Seq<char>),
    Image(Seq<char>, Seq<char>),
    Link { link_type: LinkType, url: Seq<char>, title: Seq<char>, image: bool },
    Component(Seq<char>, Seq<(Seq<char>, Seq<char>)>),
    Frontmatter(Seq<char>),
    Error(HtmlError),
}

/// The mathematical value of a [`Node`].
pub struct NodeView {
    pub kind: Kind,
    pub children: Seq<usize>,
    pub range: Option<ByteRange>,
}

/// The mathematical value of a [`Document`].
pub struct DocumentView {
    pub nodes: Seq<NodeView>,
    pub roots: Seq<usize>,
}

/// The attributes of a component, as text.
pub open spec fn attributes_view(a: Seq<(String, String)>) -> Seq<(Seq<char>, Seq<char>)> {
    a.map_values(|p: (String, String)| (p.0@, p.1@))
}

impl View for NodeKind {
    type V = Kind;

    open spec fn view(&self) -> Kind {
        match self {
            NodeKind::Element(e) => Kind::Element(*e),
            NodeKind::InnerHtml(e, s) => Kind::InnerHtml(*e, s@),
            NodeKind::Text(s) => Kind::Text(s@),
            NodeKind::WikiLink { target, alias } => Kind::WikiLink {
                target: target@,
                alias: match alias {
                    Some(a) => Some(a@),
                    None => None,
                },
            },
            NodeKind::InlineCode(s) => Kind::InlineCode(s@),
            NodeKind::CodeBlock(s) => Kind::CodeBlock(s@),
            NodeKind::Math(m, s) => Kind::Math(*m, s@),
            NodeKind::Anchor(s) => Kind::Anchor(s@),
            NodeKind::Image(s, t) => Kind::Image(s@, t@),
            NodeKind::Link { link_type, url, title, image } => Kind::Link {
                link_type: *link_type,
                url: url@,
                title: title@,
                image: *image,
            },
            NodeKind::Component(n, a) => Kind::Component(n@, attributes_view(a@)),
            NodeKind::Frontmatter(s) => Kind::Frontmatter(s@),
            NodeKind::Error(e) => Kind::Error(*e),
        }
    }
}

impl View for Node {
    type V = NodeView;

    open spec fn view(&self) -> NodeView {
        NodeView { kind: self.kind@, children: self.children@, range: self.range }
    }
}

/// The mathematical value of a vector of nodes.
pub open spec fn nodes_view(v: Seq<Node>) -> Seq<NodeView> {
    v.map_values(|n: Node| n@)
}

impl View for Document {
    type V = DocumentView;

    open spec fn view(&self) -> DocumentView {
        DocumentView { nodes: nodes_view(self.nodes@), roots: self.roots@ }
    }
}


/// The CSS declaration that aligns a table cell's text.
pub open spec fn align_style(a: Alignment) -> Seq<char> {
    match a {
        Alignment::Left => seq!['t', 'e', 'x', 't', '-', 'a', 'l', 'i', 'g', 'n', ':', ' ', 'l', 'e', 'f', 't'],
        Alignment::Right => seq!['t', 'e', 'x', 't', '-', 'a', 'l', 'i', 'g', 'n', ':', ' ', 'r', 'i', 'g', 'h', 't'],
        Alignment::Center => seq![
            't', 'e', 'x', 't', '-', 'a', 'l', 'i', 'g', 'n', ':', ' ', 'c', 'e', 'n', 't', 'e', 'r'
        ],
        Alignment::Unaligned => seq![],
    }
}

/// The CSS declaration that aligns a table cell's text as `align` says.
pub fn align_string(align: Alignment) -> (r: &'static str)
    ensures
        r@ == align_style(align),
{
    match align {
        Alignment::Left => {
            proof {
                reveal_strlit("text-align: left");
            }
            "text-align: left"
        },
        Alignment::Right => {
            proof {
                reveal_strlit("text-align: right");
            }
            "text-align: right"
        },
        Alignment::Center => {
            proof {
                reveal_strlit("text-align: center");
            }
            "text-align: center"
        },
        Alignment::Unaligned => {
            proof {
                reveal_strlit("");
            }
            ""
        },
    }
}

/// The CSS class of a formula's element, the same across every document.
pub open spec fn math_class(m: MathMode) -> Seq<char> {
    match m {
        MathMode::Inline => seq!['m', 'a', 't', 'h', '-', 'i', 'n', 'l', 'i', 'n', 'e'],
        MathMode::Display => seq!['m', 'a', 't', 'h', '-', 'f', 'l', 'o', 'w'],
    }
}

impl MathMode {
    /// The CSS class of a formula's element.
    pub fn class_name(&self) -> (r: &'static str)
        ensures
            r@ == math_class(*self),
    {
        match self {
            MathMode::Inline => {
                proof {
                    reveal_strlit("math-inline");
                }
                "math-inline"
            },
            MathMode::Display => {
                proof {
                    reveal_strlit("math-flow");
                }
                "math-flow"
            },
        }
    }

    /// Whether a formula is shown as a block: display formulas are, inline
    /// ones are not.
    pub fn is_block(&self) -> (r: bool)
        ensures
            r == (*self == MathMode::Display),
    {
        match self {
            MathMode::Inline => false,
            MathMode::Display => true,
        }
    }
}

impl HeadingLevel {
    /// The depth of the heading, from 1 to 6.
    pub fn depth(&self) -> (r: u8)
        ensures
            1 <= r <= 6,
            *self == HeadingLevel::H1 <==> r == 1,
            *self == HeadingLevel::H2 <==> r == 2,
            *self == HeadingLevel::H3 <==> r == 3,
            *self == HeadingLevel::H4 <==> r == 4,
            *self == HeadingLevel::H5 <==> r == 5,
            *self == HeadingLevel::H6 <==> r == 6,
    {
        match self {
            HeadingLevel::H1 => 1,
            HeadingLevel::H2 => 2,
            HeadingLevel::H3 => 3,
            HeadingLevel::H4 => 4,
            HeadingLevel::H5 => 5,
            HeadingLevel::H6 => 6,
        }
    }

    /// The heading of depth `d`; a depth outside 1 to 6 has none.
    pub fn from_depth(d: u8) -> (r: Option<HeadingLevel>)
        ensures
            r is Some <==> 1 <= d <= 6,
            r matches Some(l) ==> l.depth_spec() == d,
    {
        match d {
            1 => Some(HeadingLevel::H1),
            2 => Some(HeadingLevel::H2),
            3 => Some(HeadingLevel::H3),
            4 => Some(HeadingLevel::H4),
            5 => Some(HeadingLevel::H5),
            6 => Some(HeadingLevel::H6),
            _ => None,
        }
    }

    /// The depth of the heading, from 1 to 6.
    pub open spec fn depth_spec(&self) -> u8 {
        match self {
            HeadingLevel::H1 => 1,
            HeadingLevel::H2 => 2,
            HeadingLevel::H3 => 3,
            HeadingLevel::H4 => 4,
            HeadingLevel::H5 => 5,
            HeadingLevel::H6 => 6,
        }
    }
}

/// The text shown for a diagnostic.
pub open spec fn error_message(e: HtmlError) -> Seq<char> {
    match e {
        HtmlError::FootnoteReference => "do not support footnote refs yet"@,
        HtmlError::FootnoteDefinition => "footnote: not implemented"@,
        HtmlError::InvalidMath => "invalid math"@,
        HtmlError::LinkContent => "markdown content in a link is not allowed"@,
        HtmlError::UnknownComponent => "unknown component"@,
    }
}

impl HtmlError {
    /// The text shown for the diagnostic.
    pub fn to_string(&self) -> (r: String)
        ensures
            r@ == error_message(*self),
    {
        match self {
            HtmlError::FootnoteReference => String::from_str("do not support footnote refs yet"),
            HtmlError::FootnoteDefinition => String::from_str("footnote: not implemented"),
            HtmlError::InvalidMath => String::from_str("invalid math"),
            HtmlError::LinkContent => String::from_str("markdown content in a link is not allowed"),
            HtmlError::UnknownComponent => String::from_str("unknown component"),
        }
    }
}

} // verus!
