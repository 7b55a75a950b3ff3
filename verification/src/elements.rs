//! The structural elements the builder consumes. They are produced by an
//! external markup parser and consumed once, in order.

use vstd::prelude::*;
use crate::text::Text;

verus! {

/// The language tag of a code block, handed through to the highlighter.
#[derive(Clone, Copy, Debug)]
pub enum ProgrammingLanguage {
    Unknown,
    Rust,
    Python,
    C,
    Cpp,
    Go,
    Javascript,
    Typescript,
    Shell,
    Yaml,
}

/// A code block: raw contents plus a language tag.
#[derive(Debug)]
pub struct Code {
    pub contents: String,
    pub language: ProgrammingLanguage,
}

/// How one list item is marked.
#[derive(Clone, Copy, Debug)]
pub enum ListItemType {
    Unordered,
    OrderedParens(u16),
    OrderedPeriod(u16),
}

/// One list item: nesting depth, marker kind, and contents.
#[derive(Debug)]
pub struct ListItem {
    pub depth: u8,
    pub contents: Text,
    pub item_type: ListItemType,
}

/// A piece of a paragraph.
#[derive(Debug)]
pub enum ParagraphElement {
    Text(Text),
    LineBreak,
}

/// One table row: an ordered sequence of cells.
#[derive(Debug)]
pub struct TableRow(pub Vec<Text>);

/// A table: one header row plus data rows.
#[derive(Debug)]
pub struct Table {
    pub header: TableRow,
    pub rows: Vec<TableRow>,
}

/// One structural element of the document.
#[derive(Debug)]
pub enum MarkdownElement {
    FrontMatter(String),
    SetexHeading { text: Text },
    Heading { level: u8, text: Text },
    Paragraph(Vec<ParagraphElement>),
    List(Vec<ListItem>),
    Code(Code),
    Table(Table),
    ThematicBreak,
    Comment(String),
    BlockQuote(Vec<String>),
    Image(String),
}

} // verus!
