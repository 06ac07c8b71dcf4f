//! The `display` value that layout computes for a box, and its terminal counterpart.

use vstd::prelude::*;

use crate::terminal::TerminalDisplay;

verus! {

/// The outer display type: how a box takes part in its parent's formatting context.
#[derive(Clone, Copy, Debug, Eq, PartialEq)]
pub enum DisplayOutside {
    Block,
    Inline,
}

/// The inner display type: the formatting context a box establishes for its contents.
#[derive(Clone, Copy, Debug, Eq, PartialEq)]
pub enum DisplayInside {
    Flow { is_list_item: bool },
    FlowRoot { is_list_item: bool },
    Flex,
    Grid,
    Table,
}

/// The internal table display types.
#[derive(Clone, Copy, Debug, Eq, PartialEq)]
pub enum DisplayLayoutInternal {
    TableCaption,
    TableCell,
    TableColumn,
    TableColumnGroup,
    TableFooterGroup,
    TableHeaderGroup,
    TableRow,
    TableRowGroup,
}

/// A display value that generates a box.
#[derive(Clone, Copy, Debug, Eq, PartialEq)]
pub enum DisplayGeneratingBox {
    OutsideInside { outside: DisplayOutside, inside: DisplayInside },
    LayoutInternal(DisplayLayoutInternal),
}

/// The display value layout uses, after blockification and the like.
#[derive(Clone, Copy, Debug, Eq, PartialEq)]
pub enum LayoutDisplay {
    DisplayNone,
    Contents,
    GeneratingBox(DisplayGeneratingBox),
}

/// The terminal display for a pair of outer and inner display types.
pub open spec fn outside_inside_display(outside: DisplayOutside, inside: DisplayInside) -> TerminalDisplay {
    match (outside, inside) {
        (DisplayOutside::Inline, DisplayInside::Flow { .. }) => TerminalDisplay::Inline,
        (DisplayOutside::Block, DisplayInside::Flow { .. }) => TerminalDisplay::Block,
        (DisplayOutside::Inline, DisplayInside::FlowRoot { .. }) => TerminalDisplay::InlineBlock,
        (DisplayOutside::Block, DisplayInside::FlowRoot { .. }) => TerminalDisplay::FlowRoot,
        (DisplayOutside::Inline, DisplayInside::Flex) => TerminalDisplay::InlineFlex,
        (DisplayOutside::Block, DisplayInside::Flex) => TerminalDisplay::Flex,
        (DisplayOutside::Inline, DisplayInside::Grid) => TerminalDisplay::InlineGrid,
        (DisplayOutside::Block, DisplayInside::Grid) => TerminalDisplay::Grid,
        (DisplayOutside::Inline, DisplayInside::Table) => TerminalDisplay::InlineTable,
        (DisplayOutside::Block, DisplayInside::Table) => TerminalDisplay::Table,
    }
}

/// The terminal display for an internal table display type.
pub open spec fn layout_internal_display(internal: DisplayLayoutInternal) -> TerminalDisplay {
    match internal {
        DisplayLayoutInternal::TableCaption => TerminalDisplay::TableCaption,
        DisplayLayoutInternal::TableCell => TerminalDisplay::TableCell,
        DisplayLayoutInternal::TableColumn => TerminalDisplay::TableColumn,
        DisplayLayoutInternal::TableColumnGroup => TerminalDisplay::TableColumnGroup,
        DisplayLayoutInternal::TableFooterGroup => TerminalDisplay::TableFooterGroup,
        DisplayLayoutInternal::TableHeaderGroup => TerminalDisplay::TableHeaderGroup,
        DisplayLayoutInternal::TableRow => TerminalDisplay::TableRow,
        DisplayLayoutInternal::TableRowGroup => TerminalDisplay::TableRowGroup,
    }
}

/// The terminal display of a layout display value: `none` and `contents` carry over,
/// a generating box is named by its outer and inner types (the list-item flag is
/// dropped), and internal table types keep their names.
pub open spec fn spec_terminal_display(display: LayoutDisplay) -> TerminalDisplay {
    match display {
        LayoutDisplay::DisplayNone => TerminalDisplay::DisplayNone,
        LayoutDisplay::Contents => TerminalDisplay::Contents,
        LayoutDisplay::GeneratingBox(DisplayGeneratingBox::OutsideInside { outside, inside }) =>
            outside_inside_display(outside, inside),
        LayoutDisplay::GeneratingBox(DisplayGeneratingBox::LayoutInternal(internal)) =>
            layout_internal_display(internal),
    }
}

/// Maps a layout display value to its terminal display.
pub fn terminal_display(display: LayoutDisplay) -> (result: TerminalDisplay)
    ensures
        result == spec_terminal_display(display),
{
    match display {
        LayoutDisplay::DisplayNone => TerminalDisplay::DisplayNone,
        LayoutDisplay::Contents => TerminalDisplay::Contents,
        LayoutDisplay::GeneratingBox(DisplayGeneratingBox::OutsideInside { outside, inside }) => {
            match (outside, inside) {
                (DisplayOutside::Inline, DisplayInside::Flow { .. }) => TerminalDisplay::Inline,
                (DisplayOutside::Block, DisplayInside::Flow { .. }) => TerminalDisplay::Block,
                (DisplayOutside::Inline, DisplayInside::FlowRoot { .. }) => {
                    TerminalDisplay::InlineBlock
                },
                (DisplayOutside::Block, DisplayInside::FlowRoot { .. }) => {
                    TerminalDisplay::FlowRoot
                },
                (DisplayOutside::Inline, DisplayInside::Flex) => TerminalDisplay::InlineFlex,
                (DisplayOutside::Block, DisplayInside::Flex) => TerminalDisplay::Flex,
                (DisplayOutside::Inline, DisplayInside::Grid) => TerminalDisplay::InlineGrid,
                (DisplayOutside::Block, DisplayInside::Grid) => TerminalDisplay::Grid,
                (DisplayOutside::Inline, DisplayInside::Table) => TerminalDisplay::InlineTable,
                (DisplayOutside::Block, DisplayInside::Table) => TerminalDisplay::Table,
            }
        },
        LayoutDisplay::GeneratingBox(DisplayGeneratingBox::LayoutInternal(internal)) => {
            match internal {
                DisplayLayoutInternal::TableCaption => TerminalDisplay::TableCaption,
                DisplayLayoutInternal::TableCell => TerminalDisplay::TableCell,
                DisplayLayoutInternal::TableColumn => TerminalDisplay::TableColumn,
                DisplayLayoutInternal::TableColumnGroup => TerminalDisplay::TableColumnGroup,
                DisplayLayoutInternal::TableFooterGroup => TerminalDisplay::TableFooterGroup,
                DisplayLayoutInternal::TableHeaderGroup => TerminalDisplay::TableHeaderGroup,
                DisplayLayoutInternal::TableRow => TerminalDisplay::TableRow,
                DisplayLayoutInternal::TableRowGroup => TerminalDisplay::TableRowGroup,
            }
        },
    }
}

} // verus!

verus! {

/// Law: whether a flow or flow-root box is a list item does not change its terminal
/// display.
pub proof fn law_display_ignores_list_item(outside: DisplayOutside, first: bool, second: bool)
    ensures
        spec_terminal_display(LayoutDisplay::GeneratingBox(DisplayGeneratingBox::OutsideInside {
            outside,
            inside: DisplayInside::Flow { is_list_item: first },
        })) == spec_terminal_display(LayoutDisplay::GeneratingBox(DisplayGeneratingBox::OutsideInside {
            outside,
            inside: DisplayInside::Flow { is_list_item: second },
        })),
        spec_terminal_display(LayoutDisplay::GeneratingBox(DisplayGeneratingBox::OutsideInside {
            outside,
            inside: DisplayInside::FlowRoot { is_list_item: first },
        })) == spec_terminal_display(LayoutDisplay::GeneratingBox(DisplayGeneratingBox::OutsideInside {
            outside,
            inside: DisplayInside::FlowRoot { is_list_item: second },
        })),
{
}

/// Law: a box's terminal display is inline-level exactly when its outer display type is
/// inline, and its inner display type alone picks the family: flow gives inline or
/// block, flow-root gives inline-block or flow-root, and flex, grid and table give their
/// inline or block forms.
pub proof fn law_display_follows_outer_and_inner_types(outside: DisplayOutside, inside: DisplayInside)
    ensures
        ({
            let d = spec_terminal_display(LayoutDisplay::GeneratingBox(DisplayGeneratingBox::OutsideInside {
                outside,
                inside,
            }));
            let inline_level = d is Inline || d is InlineBlock || d is InlineFlex || d is InlineGrid
                || d is InlineTable;
            &&& inline_level <==> outside is Inline
            &&& inside is Flow ==> (d is Inline || d is Block)
            &&& inside is FlowRoot ==> (d is InlineBlock || d is FlowRoot)
            &&& inside is Flex ==> (d is InlineFlex || d is Flex)
            &&& inside is Grid ==> (d is InlineGrid || d is Grid)
            &&& inside is Table ==> (d is InlineTable || d is Table)
        }),
{
}

/// Law: `display: none` and `display: contents` keep their meaning, and each internal
/// table display type keeps its name.
pub proof fn law_display_keeps_special_values(internal: DisplayLayoutInternal)
    ensures
        spec_terminal_display(LayoutDisplay::DisplayNone) is DisplayNone,
        spec_terminal_display(LayoutDisplay::Contents) is Contents,
        ({
            let d = spec_terminal_display(LayoutDisplay::GeneratingBox(DisplayGeneratingBox::LayoutInternal(internal)));
            &&& internal is TableCaption <==> d is TableCaption
            &&& internal is TableCell <==> d is TableCell
            &&& internal is TableColumn <==> d is TableColumn
            &&& internal is TableColumnGroup <==> d is TableColumnGroup
            &&& internal is TableFooterGroup <==> d is TableFooterGroup
            &&& internal is TableHeaderGroup <==> d is TableHeaderGroup
            &&& internal is TableRow <==> d is TableRow
            &&& internal is TableRowGroup <==> d is TableRowGroup
        }),
{
}

} // verus!
