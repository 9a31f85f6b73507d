//! The flat stream of markup events that the renderer consumes, each with
//! the byte range of the source that produced it.
use vstd::prelude::*;

verus! {

/// A half-open range of byte offsets into the source.
#[derive(Clone, Copy, Debug, PartialEq, Eq, Structural)]
pub struct ByteRange {
    pub start: usize,
    pub end: usize,
}

/// Alignment of a table column.
#[derive(Clone, Copy, Debug, PartialEq, Eq, Structural)]
pub enum Alignment {
    Unaligned,
    Left,
    Center,
    Right,
}

/// Depth of a heading: markdown knows six of them.
#[derive(Clone, Copy, Debug, PartialEq, Eq, Structural)]
pub enum HeadingLevel {
    H1,
    H2,
    H3,
    H4,
    H5,
    H6,
}

/// Whether a formula stands inside a line or as a block of its own.
#[derive(Clone, Copy, Debug, PartialEq, Eq, Structural)]
pub enum MathMode {
    Inline,
    Display,
}

/// How a link was written in the source.
#[derive(Clone, Copy, Debug, PartialEq, Eq, Structural)]
pub enum LinkType {
    Inline,
    Reference,
    Collapsed,
    Shortcut,
    Autolink,
    Email,
    WikiLink,
}

/// How a code block was written: indented, or fenced with an optional
/// language token.
#[derive(Clone, Debug, PartialEq, Eq)]
pub enum CodeBlockKind {
    Indented,
    Fenced(String),
}

/// A container that an event opens.
#[derive(Clone, Debug, PartialEq, Eq)]
pub enum Tag {
    Paragraph,
    Heading(HeadingLevel),
    BlockQuote,
    CodeBlock(CodeBlockKind),
    HtmlBlock,
    List(Option<u64>),
    Item,
    FootnoteDefinition(String),
    Table(Vec<Alignment>),
    TableHead,
    TableRow,
    TableCell,
    Emphasis,
    Strong,
    Strikethrough,
    Link { link_type: LinkType, dest_url: String, title: String },
    Image { link_type: LinkType, dest_url: String, title: String },
    MetadataBlock,
    /// An element handled by a custom component, with its attributes.
    Component { name: String, attributes: Vec<(String, String)> },
}

/// A container that an event closes.
#[derive(Clone, Copy, Debug, PartialEq, Eq, Structural)]
pub enum TagEnd {
    Paragraph,
    Heading(HeadingLevel),
    BlockQuote,
    CodeBlock,
    HtmlBlock,
    List(bool),
    Item,
    FootnoteDefinition,
    Table,
    TableHead,
    TableRow,
    TableCell,
    Emphasis,
    Strong,
    Strikethrough,
    Link,
    Image,
    MetadataBlock,
    Component,
}

/// One markup event.
#[derive(Clone, Debug, PartialEq, Eq)]
pub enum Event {
    Start(Tag),
    End(TagEnd),
    Text(String),
    Code(String),
    Html(String),
    InlineHtml(String),
    FootnoteReference(String),
    SoftBreak,
    HardBreak,
    Rule,
    TaskListMarker(bool),
    Math(MathMode, String),
}

/// The mathematical value of a [`Tag`]; a code block's language is `None`
/// where the block is indented.
pub enum TagView {
    Paragraph,
    Heading(HeadingLevel),
    BlockQuote,
    CodeBlock(Option<Seq<char>>),
    HtmlBlock,
    List(Option<u64>),
    Item,
    FootnoteDefinition(Seq<char>),
    Table(Seq<Alignment>),
    TableHead,
    TableRow,
    TableCell,
    Emphasis,
    Strong,
    Strikethrough,
    Link { link_type: LinkType, dest_url: Seq<char>, title: Seq<char> },
    Image { link_type: LinkType, dest_url: Seq<char>, title: Seq<char> },
    MetadataBlock,
    Component { name: Seq<char>, attributes: Seq<(Seq<char>, Seq<char>)> },
}

impl View for Tag {
    type V = TagView;

    open spec fn view(&self) -> TagView {
        match self {
            Tag::Paragraph => TagView::Paragraph,
            Tag::Heading(l) => TagView::Heading(*l),
            Tag::BlockQuote => TagView::BlockQuote,
            Tag::CodeBlock(CodeBlockKind::Indented) => TagView::CodeBlock(None),
            Tag::CodeBlock(CodeBlockKind::Fenced(l)) => TagView::CodeBlock(Some(l@)),
            Tag::HtmlBlock => TagView::HtmlBlock,
            Tag::List(n) => TagView::List(*n),
            Tag::Item => TagView::Item,
            Tag::FootnoteDefinition(l) => TagView::FootnoteDefinition(l@),
            Tag::Table(a) => TagView::Table(a@),
            Tag::TableHead => TagView::TableHead,
            Tag::TableRow => TagView::TableRow,
            Tag::TableCell => TagView::TableCell,
            Tag::Emphasis => TagView::Emphasis,
            Tag::Strong => TagView::Strong,
            Tag::Strikethrough => TagView::Strikethrough,
            Tag::Link { link_type, dest_url, title } => TagView::Link {
                link_type: *link_type,
                dest_url: dest_url@,
                title: title@,
            },
            Tag::Image { link_type, dest_url, title } => TagView::Image {
                link_type: *link_type,
                dest_url: dest_url@,
                title: title@,
            },
            Tag::MetadataBlock => TagView::MetadataBlock,
            Tag::Component { name, attributes } => TagView::Component {
                name: name@,
                attributes: attributes@.map_values(|p: (String, String)| (p.0@, p.1@)),
            },
        }
    }
}

/// The event that closes a container opened by `tag`.
pub open spec fn closing(tag: TagView) -> TagEnd {
    match tag {
        TagView::Paragraph => TagEnd::Paragraph,
        TagView::Heading(l) => TagEnd::Heading(l),
        TagView::BlockQuote => TagEnd::BlockQuote,
        TagView::CodeBlock(_) => TagEnd::CodeBlock,
        TagView::HtmlBlock => TagEnd::HtmlBlock,
        TagView::List(start) => TagEnd::List(start is Some),
        TagView::Item => TagEnd::Item,
        TagView::FootnoteDefinition(_) => TagEnd::FootnoteDefinition,
        TagView::Table(_) => TagEnd::Table,
        TagView::TableHead => TagEnd::TableHead,
        TagView::TableRow => TagEnd::TableRow,
        TagView::TableCell => TagEnd::TableCell,
        TagView::Emphasis => TagEnd::Emphasis,
        TagView::Strong => TagEnd::Strong,
        TagView::Strikethrough => TagEnd::Strikethrough,
        TagView::Link { .. } => TagEnd::Link,
        TagView::Image { .. } => TagEnd::Image,
        TagView::MetadataBlock => TagEnd::MetadataBlock,
        TagView::Component { .. } => TagEnd::Component,
    }
}

/// The event that closes `tag`.
pub fn as_closing_tag(tag: &Tag) -> (r: TagEnd)
    ensures
        r == closing(tag@),
{
    match tag {
        Tag::Paragraph => TagEnd::Paragraph,
        Tag::Heading(l) => TagEnd::Heading(*l),
        Tag::BlockQuote => TagEnd::BlockQuote,
        Tag::CodeBlock(_) => TagEnd::CodeBlock,
        Tag::HtmlBlock => TagEnd::HtmlBlock,
        Tag::List(start) => TagEnd::List(start.is_some()),
        Tag::Item => TagEnd::Item,
        Tag::FootnoteDefinition(_) => TagEnd::FootnoteDefinition,
        Tag::Table(_) => TagEnd::Table,
        Tag::TableHead => TagEnd::TableHead,
        Tag::TableRow => TagEnd::TableRow,
        Tag::TableCell => TagEnd::TableCell,
        Tag::Emphasis => TagEnd::Emphasis,
        Tag::Strong => TagEnd::Strong,
        Tag::Strikethrough => TagEnd::Strikethrough,
        Tag::Link { .. } => TagEnd::Link,
        Tag::Image { .. } => TagEnd::Image,
        Tag::MetadataBlock => TagEnd::MetadataBlock,
        Tag::Component { .. } => TagEnd::Component,
    }
}

} // verus!
