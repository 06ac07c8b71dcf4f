//! The computed style properties a terminal reproduces, and their terminal summary.

use vstd::prelude::*;

use crate::channel::{color_component, spec_color_component};
use crate::display::{LayoutDisplay, spec_terminal_display, terminal_display};
use crate::terminal::{TerminalColor, TerminalCssProperties};

verus! {

/// A color already converted to the sRGB color space; each component and the alpha are
/// the bit patterns of IEEE 754 binary32 values, nominally within `[0, 1]`.
#[derive(Clone, Copy, Debug, PartialEq, Eq)]
pub struct SrgbColor {
    pub red: u32,
    pub green: u32,
    pub blue: u32,
    pub alpha: u32,
}

/// The computed `visibility` value.
#[derive(Clone, Copy, Debug, PartialEq, Eq)]
pub enum Visibility {
    Visible,
    Hidden,
    Collapse,
}

/// The computed `white-space-collapse` value.
#[derive(Clone, Copy, Debug, PartialEq, Eq)]
pub enum WhiteSpaceCollapse {
    Collapse,
    Preserve,
    PreserveBreaks,
    PreserveSpaces,
    BreakSpaces,
}

/// The lines of the computed `text-decoration-line` value.
#[derive(Clone, Copy, Debug, PartialEq, Eq)]
pub struct TextDecorationLine {
    pub underline: bool,
    pub overline: bool,
    pub line_through: bool,
    pub blink: bool,
}

/// The computed values of an element or text run that the terminal summary reads.
#[derive(Clone, Copy, Debug, PartialEq, Eq)]
pub struct ComputedStyleValues {
    /// The display value as layout uses it.
    pub display: LayoutDisplay,
    pub visibility: Visibility,
    /// The text color, in sRGB.
    pub color: SrgbColor,
    /// The background color, resolved against the text color, in sRGB.
    pub background_color: SrgbColor,
    /// The font weight is at or above the bold threshold.
    pub font_weight_is_bold: bool,
    /// The font style is `italic`.
    pub font_style_is_italic: bool,
    pub text_decoration_line: TextDecorationLine,
    pub white_space_collapse: WhiteSpaceCollapse,
}

/// The 8-bit terminal color of an sRGB color: each channel quantized on its own.
pub open spec fn spec_terminal_color(color: SrgbColor) -> TerminalColor {
    TerminalColor {
        r: spec_color_component(color.red),
        g: spec_color_component(color.green),
        b: spec_color_component(color.blue),
        a: spec_color_component(color.alpha),
    }
}

/// Whether a `white-space-collapse` value keeps spaces or line breaks as written.
pub open spec fn spec_preserves_whitespace(value: WhiteSpaceCollapse) -> bool {
    match value {
        WhiteSpaceCollapse::Preserve | WhiteSpaceCollapse::PreserveBreaks
        | WhiteSpaceCollapse::BreakSpaces => true,
        _ => false,
    }
}

/// The terminal summary of computed values.
pub open spec fn spec_terminal_css_properties(style: ComputedStyleValues) -> TerminalCssProperties {
    TerminalCssProperties {
        display: spec_terminal_display(style.display),
        visible: style.visibility == Visibility::Visible,
        color: spec_terminal_color(style.color),
        background_color: spec_terminal_color(style.background_color),
        bold: style.font_weight_is_bold,
        italic: style.font_style_is_italic,
        underline: style.text_decoration_line.underline,
        overline: style.text_decoration_line.overline,
        line_through: style.text_decoration_line.line_through,
        preserve_whitespace: spec_preserves_whitespace(style.white_space_collapse),
    }
}

/// Quantizes an sRGB color to 8 bits per channel.
pub fn terminal_color(color: SrgbColor) -> (result: TerminalColor)
    ensures
        result == spec_terminal_color(color),
{
    TerminalColor {
        r: color_component(color.red),
        g: color_component(color.green),
        b: color_component(color.blue),
        a: color_component(color.alpha),
    }
}

/// Summarizes computed values for a terminal.
pub fn terminal_css_properties(style: &ComputedStyleValues) -> (result: TerminalCssProperties)
    ensures
        result == spec_terminal_css_properties(*style),
{
    let visible = match style.visibility {
        Visibility::Visible => true,
        _ => false,
    };
    let preserve_whitespace = match style.white_space_collapse {
        WhiteSpaceCollapse::Preserve | WhiteSpaceCollapse::PreserveBreaks
        | WhiteSpaceCollapse::BreakSpaces => true,
        _ => false,
    };
    TerminalCssProperties {
        display: terminal_display(style.display),
        visible,
        color: terminal_color(style.color),
        background_color: terminal_color(style.background_color),
        bold: style.font_weight_is_bold,
        italic: style.font_style_is_italic,
        underline: style.text_decoration_line.underline,
        overline: style.text_decoration_line.overline,
        line_through: style.text_decoration_line.line_through,
        preserve_whitespace,
    }
}

} // verus!

verus! {

/// Law: every flag of the terminal summary reports the computed value it is named after:
/// the underline, overline and line-through flags are the style's underline, overline and
/// line-through lines; bold and italic are the font's; the summary is visible exactly
/// when `visibility` is `visible`; white space is preserved exactly for `preserve`,
/// `preserve-breaks` and `break-spaces`; and the display and colors are those of the
/// style's display and colors.
pub proof fn law_summary_reports_each_property(style: ComputedStyleValues)
    ensures
        spec_terminal_css_properties(style).underline == style.text_decoration_line.underline,
        spec_terminal_css_properties(style).overline == style.text_decoration_line.overline,
        spec_terminal_css_properties(style).line_through == style.text_decoration_line.line_through,
        spec_terminal_css_properties(style).bold == style.font_weight_is_bold,
        spec_terminal_css_properties(style).italic == style.font_style_is_italic,
        spec_terminal_css_properties(style).visible <==> style.visibility is Visible,
        spec_terminal_css_properties(style).preserve_whitespace <==> (
            style.white_space_collapse is Preserve || style.white_space_collapse is PreserveBreaks
                || style.white_space_collapse is BreakSpaces),
        spec_terminal_css_properties(style).display == spec_terminal_display(style.display),
        spec_terminal_css_properties(style).color == spec_terminal_color(style.color),
        spec_terminal_css_properties(style).background_color == spec_terminal_color(style.background_color),
{
}

/// Law: each channel of a terminal color is quantized from the matching channel of the
/// sRGB color, and from no other.
pub proof fn law_terminal_color_channels(color: SrgbColor)
    ensures
        spec_terminal_color(color).r == spec_color_component(color.red),
        spec_terminal_color(color).g == spec_color_component(color.green),
        spec_terminal_color(color).b == spec_color_component(color.blue),
        spec_terminal_color(color).a == spec_color_component(color.alpha),
{
}

} // verus!
