//! The tree handed to terminal front ends, and the style summary attached to its nodes.

use vstd::prelude::*;

verus! {

/// What a node of the terminal tree stands for.
#[derive(Clone, Debug, PartialEq)]
pub enum TerminalNodeKind {
    Document,
    Element(TerminalElementData),
    Text(String),
}

/// The element facts a terminal front end uses to render and to make an element interactive.
#[derive(Clone, Debug, PartialEq)]
pub struct TerminalElementData {
    pub tag_name: String,
    pub role: TerminalElementRole,
    pub href: Option<String>,
    pub src: Option<String>,
    pub alt: Option<String>,
    pub value: Option<String>,
    pub title: Option<String>,
}

/// How a terminal front end may interact with an element.
#[derive(Clone, Copy, Debug, Eq, PartialEq)]
pub enum TerminalElementRole {
    Generic,
    Link,
    Button,
    Input,
    TextArea,
    Image,
    Select,
    IFrame,
}

/// An 8-bit sRGB color with alpha.
#[derive(Clone, Copy, Debug, Eq, PartialEq)]
pub struct TerminalColor {
    pub r: u8,
    pub g: u8,
    pub b: u8,
    pub a: u8,
}

/// The `display` value of a box, flattened into one enumeration.
#[derive(Clone, Copy, Debug, Eq, PartialEq)]
pub enum TerminalDisplay {
    DisplayNone,
    Contents,
    Inline,
    Block,
    InlineBlock,
    FlowRoot,
    Flex,
    InlineFlex,
    Grid,
    InlineGrid,
    Table,
    InlineTable,
    TableCaption,
    TableCell,
    TableRow,
    TableRowGroup,
    TableColumn,
    TableColumnGroup,
    TableHeaderGroup,
    TableFooterGroup,
}

/// The computed style properties that a terminal front end reproduces.
#[derive(Clone, Copy, Debug, PartialEq)]
pub struct TerminalCssProperties {
    pub display: TerminalDisplay,
    pub visible: bool,
    pub color: TerminalColor,
    pub background_color: TerminalColor,
    pub bold: bool,
    pub italic: bool,
    pub underline: bool,
    pub overline: bool,
    pub line_through: bool,
    pub preserve_whitespace: bool,
}

} // verus!
