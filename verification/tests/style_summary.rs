use terminal_bridge::display::{
    DisplayGeneratingBox, DisplayInside, DisplayLayoutInternal, DisplayOutside, LayoutDisplay,
    terminal_display,
};
use terminal_bridge::channel::color_component;
use terminal_bridge::style::{
    ComputedStyleValues, SrgbColor, TextDecorationLine, Visibility, WhiteSpaceCollapse,
    terminal_color, terminal_css_properties,
};
use terminal_bridge::terminal::{TerminalColor, TerminalDisplay};

fn srgb(r: f32, g: f32, b: f32, a: f32) -> SrgbColor {
    SrgbColor { red: r.to_bits(), green: g.to_bits(), blue: b.to_bits(), alpha: a.to_bits() }
}

fn inline_flow() -> LayoutDisplay {
    LayoutDisplay::GeneratingBox(DisplayGeneratingBox::OutsideInside {
        outside: DisplayOutside::Inline,
        inside: DisplayInside::Flow { is_list_item: false },
    })
}

/// The initial computed values: `display: inline`, visible, black text on a transparent
/// background, normal weight and style, no decoration, collapsing white space.
fn style() -> ComputedStyleValues {
    ComputedStyleValues {
        display: inline_flow(),
        visibility: Visibility::Visible,
        color: srgb(0.0, 0.0, 0.0, 1.0),
        background_color: srgb(0.0, 0.0, 0.0, 0.0),
        font_weight_is_bold: false,
        font_style_is_italic: false,
        text_decoration_line: TextDecorationLine {
            underline: false,
            overline: false,
            line_through: false,
            blink: false,
        },
        white_space_collapse: WhiteSpaceCollapse::Collapse,
    }
}

#[test]
fn terminal_styles_capture_core_text_and_color_state() {
    let style = style();
    let properties = terminal_css_properties(&style);

    assert_eq!(properties.display, TerminalDisplay::Inline);
    assert!(properties.visible);
    assert!(!properties.bold);
    assert!(!properties.italic);
    assert!(!properties.underline);
    assert_eq!(
        properties.color,
        TerminalColor {
            r: 0,
            g: 0,
            b: 0,
            a: 255,
        }
    );
}

fn reference_component(value: f32) -> u8 {
    (value.clamp(0.0, 1.0) * 255.0).round() as u8
}

#[test]
fn color_component_matches_binary32_arithmetic_across_all_bit_patterns() {
    let mut bits: u64 = 0;
    while bits <= u32::MAX as u64 {
        let b = bits as u32;
        assert_eq!(color_component(b), reference_component(f32::from_bits(b)), "bits {:#x}", b);
        bits += 65_521;
    }
}

#[test]
fn color_component_matches_binary32_arithmetic_within_the_unit_interval() {
    let mut bits: u32 = 0;
    while bits <= 0x3f80_0000 {
        assert_eq!(color_component(bits), reference_component(f32::from_bits(bits)), "bits {:#x}", bits);
        bits += 211;
    }
    // The tail just below one, where the product rounds and ties are likeliest.
    for bits in 0x3f7f_0000u32..=0x3f80_0000u32 {
        assert_eq!(color_component(bits), reference_component(f32::from_bits(bits)), "bits {:#x}", bits);
    }
}

#[test]
fn color_component_handles_special_values() {
    assert_eq!(color_component(f32::NAN.to_bits()), 0);
    assert_eq!(color_component((-f32::NAN).to_bits()), 0);
    assert_eq!(color_component((-0.0f32).to_bits()), 0);
    assert_eq!(color_component(0.0f32.to_bits()), 0);
    assert_eq!(color_component(f32::INFINITY.to_bits()), 255);
    assert_eq!(color_component(f32::NEG_INFINITY.to_bits()), 0);
    assert_eq!(color_component((-0.5f32).to_bits()), 0);
    assert_eq!(color_component(1.0f32.to_bits()), 255);
    assert_eq!(color_component(7.5f32.to_bits()), 255);
    assert_eq!(color_component(f32::from_bits(1).to_bits()), 0);
    assert_eq!(color_component(0.5f32.to_bits()), 128);
    assert_eq!(color_component((0.5f32 / 255.0).to_bits()), reference_component(0.5 / 255.0));
}

#[test]
fn color_component_recovers_every_eight_bit_channel() {
    for k in 0..=255u32 {
        let value = k as f32 / 255.0;
        assert_eq!(color_component(value.to_bits()), k as u8);
    }
}

#[test]
fn terminal_color_quantizes_each_channel() {
    let color = terminal_color(srgb(1.0, 0.5, 0.2, 0.0));
    assert_eq!(color, TerminalColor { r: 255, g: 128, b: 51, a: 0 });
    let color = terminal_color(srgb(-1.0, 2.0, f32::NAN, 1.0));
    assert_eq!(color, TerminalColor { r: 0, g: 255, b: 0, a: 255 });
}

#[test]
fn terminal_css_properties_reads_every_property() {
    let mut style = style();
    style.display = LayoutDisplay::GeneratingBox(DisplayGeneratingBox::LayoutInternal(
        DisplayLayoutInternal::TableCell,
    ));
    style.visibility = Visibility::Hidden;
    style.color = srgb(1.0, 0.0, 0.0, 1.0);
    style.background_color = srgb(0.0, 0.0, 1.0, 0.5);
    style.font_weight_is_bold = true;
    style.font_style_is_italic = true;
    style.text_decoration_line = TextDecorationLine {
        underline: true,
        overline: true,
        line_through: true,
        blink: true,
    };
    style.white_space_collapse = WhiteSpaceCollapse::BreakSpaces;
    let properties = terminal_css_properties(&style);
    assert_eq!(properties.display, TerminalDisplay::TableCell);
    assert!(!properties.visible);
    assert_eq!(properties.color, TerminalColor { r: 255, g: 0, b: 0, a: 255 });
    assert_eq!(properties.background_color, TerminalColor { r: 0, g: 0, b: 255, a: 128 });
    assert!(properties.bold);
    assert!(properties.italic);
    assert!(properties.underline);
    assert!(properties.overline);
    assert!(properties.line_through);
    assert!(properties.preserve_whitespace);
}

#[test]
fn white_space_preservation_follows_the_collapse_value() {
    let expected = [
        (WhiteSpaceCollapse::Collapse, false),
        (WhiteSpaceCollapse::Preserve, true),
        (WhiteSpaceCollapse::PreserveBreaks, true),
        (WhiteSpaceCollapse::PreserveSpaces, false),
        (WhiteSpaceCollapse::BreakSpaces, true),
    ];
    for (value, preserved) in expected {
        let mut style = style();
        style.white_space_collapse = value;
        assert_eq!(terminal_css_properties(&style).preserve_whitespace, preserved);
    }
    let mut style = style();
    style.visibility = Visibility::Collapse;
    assert!(!terminal_css_properties(&style).visible);
}

#[test]
fn terminal_display_names_every_display_value() {
    let outside_inside = |outside, inside| {
        terminal_display(LayoutDisplay::GeneratingBox(DisplayGeneratingBox::OutsideInside {
            outside,
            inside,
        }))
    };
    let flow = DisplayInside::Flow { is_list_item: true };
    let flow_root = DisplayInside::FlowRoot { is_list_item: false };
    assert_eq!(terminal_display(LayoutDisplay::DisplayNone), TerminalDisplay::DisplayNone);
    assert_eq!(terminal_display(LayoutDisplay::Contents), TerminalDisplay::Contents);
    assert_eq!(outside_inside(DisplayOutside::Inline, flow), TerminalDisplay::Inline);
    assert_eq!(outside_inside(DisplayOutside::Block, flow), TerminalDisplay::Block);
    assert_eq!(outside_inside(DisplayOutside::Inline, flow_root), TerminalDisplay::InlineBlock);
    assert_eq!(outside_inside(DisplayOutside::Block, flow_root), TerminalDisplay::FlowRoot);
    assert_eq!(outside_inside(DisplayOutside::Inline, DisplayInside::Flex), TerminalDisplay::InlineFlex);
    assert_eq!(outside_inside(DisplayOutside::Block, DisplayInside::Flex), TerminalDisplay::Flex);
    assert_eq!(outside_inside(DisplayOutside::Inline, DisplayInside::Grid), TerminalDisplay::InlineGrid);
    assert_eq!(outside_inside(DisplayOutside::Block, DisplayInside::Grid), TerminalDisplay::Grid);
    assert_eq!(outside_inside(DisplayOutside::Inline, DisplayInside::Table), TerminalDisplay::InlineTable);
    assert_eq!(outside_inside(DisplayOutside::Block, DisplayInside::Table), TerminalDisplay::Table);
    let internal = |value| {
        terminal_display(LayoutDisplay::GeneratingBox(DisplayGeneratingBox::LayoutInternal(value)))
    };
    assert_eq!(internal(DisplayLayoutInternal::TableCaption), TerminalDisplay::TableCaption);
    assert_eq!(internal(DisplayLayoutInternal::TableCell), TerminalDisplay::TableCell);
    assert_eq!(internal(DisplayLayoutInternal::TableColumn), TerminalDisplay::TableColumn);
    assert_eq!(internal(DisplayLayoutInternal::TableColumnGroup), TerminalDisplay::TableColumnGroup);
    assert_eq!(internal(DisplayLayoutInternal::TableFooterGroup), TerminalDisplay::TableFooterGroup);
    assert_eq!(internal(DisplayLayoutInternal::TableHeaderGroup), TerminalDisplay::TableHeaderGroup);
    assert_eq!(internal(DisplayLayoutInternal::TableRow), TerminalDisplay::TableRow);
    assert_eq!(internal(DisplayLayoutInternal::TableRowGroup), TerminalDisplay::TableRowGroup);
}

#[test]
fn brighter_channels_never_quantize_darker() {
    let mut previous = 0u8;
    let mut bits: u32 = 0;
    while bits <= 0x7f80_0000 {
        let channel = color_component(bits);
        assert!(channel >= previous, "bits {:#x}", bits);
        previous = channel;
        bits += 4099;
    }
    assert_eq!(color_component(0x7f80_0000), 255);
}

#[test]
fn list_items_share_the_display_of_their_box() {
    for outside in [DisplayOutside::Inline, DisplayOutside::Block] {
        let with = |inside| {
            terminal_display(LayoutDisplay::GeneratingBox(DisplayGeneratingBox::OutsideInside { outside, inside }))
        };
        assert_eq!(with(DisplayInside::Flow { is_list_item: true }), with(DisplayInside::Flow { is_list_item: false }));
        assert_eq!(
            with(DisplayInside::FlowRoot { is_list_item: true }),
            with(DisplayInside::FlowRoot { is_list_item: false })
        );
    }
}
