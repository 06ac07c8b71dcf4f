use app_units::Au;
use terminal_bridge::display::{DisplayGeneratingBox, DisplayInside, DisplayOutside, LayoutDisplay};
use terminal_bridge::fragments::{
    FragmentBase, FragmentGeometry, FragmentTag, FragmentVisit, collect_fragment_metadata_from_roots,
    fragment_absolute_rect,
};
use terminal_bridge::geometry::{AppUnitRect, MAX_APP_UNITS, MIN_APP_UNITS};
use terminal_bridge::style::{ComputedStyleValues, SrgbColor, TextDecorationLine, Visibility, WhiteSpaceCollapse};
use terminal_bridge::terminal::TerminalDisplay;

fn rect(x: i32, y: i32, width: i32, height: i32) -> AppUnitRect {
    AppUnitRect {
        x: Au::from_px(x).0,
        y: Au::from_px(y).0,
        width: Au::from_px(width).0,
        height: Au::from_px(height).0,
    }
}

fn px(rect: &AppUnitRect) -> (f32, f32, f32, f32) {
    (
        Au(rect.x).to_f32_px(),
        Au(rect.y).to_f32_px(),
        Au(rect.width).to_f32_px(),
        Au(rect.height).to_f32_px(),
    )
}

/// The node's rectangle as a front end sees it: the union of the fragments' rectangles,
/// each converted to binary32 CSS pixels, taken with euclid from the first onwards.
fn pixel_union(rects: &[AppUnitRect]) -> (f32, f32, f32, f32) {
    let to_pixels = |r: &AppUnitRect| {
        euclid::default::Rect::new(
            euclid::point2(Au(r.x).to_f32_px(), Au(r.y).to_f32_px()),
            euclid::size2(Au(r.width).to_f32_px(), Au(r.height).to_f32_px()),
        )
    };
    let mut union = to_pixels(&rects[0]);
    for r in &rects[1..] {
        union = union.union(&to_pixels(r));
    }
    (union.origin.x, union.origin.y, union.size.width, union.size.height)
}

fn sorted(rects: &[AppUnitRect]) -> Vec<(i32, i32, i32, i32)> {
    let mut keys: Vec<(i32, i32, i32, i32)> = rects.iter().map(|r| (r.x, r.y, r.width, r.height)).collect();
    keys.sort();
    keys
}

fn style_with(display: DisplayOutside) -> ComputedStyleValues {
    ComputedStyleValues {
        display: LayoutDisplay::GeneratingBox(DisplayGeneratingBox::OutsideInside {
            outside: display,
            inside: DisplayInside::Flow { is_list_item: false },
        }),
        visibility: Visibility::Visible,
        color: SrgbColor { red: 0, green: 0, blue: 0, alpha: 1.0f32.to_bits() },
        background_color: SrgbColor { red: 0, green: 0, blue: 0, alpha: 0 },
        font_weight_is_bold: false,
        font_style_is_italic: false,
        text_decoration_line: TextDecorationLine {
            underline: false,
            overline: false,
            line_through: false,
            blink: false,
        },
        white_space_collapse: WhiteSpaceCollapse::Collapse,
    }
}

fn visit(id: usize, geometry: FragmentGeometry, containing_block: AppUnitRect) -> FragmentVisit {
    FragmentVisit {
        base: Some(FragmentBase {
            tag: Some(FragmentTag { node_id: id, in_pseudo_element: false }),
            style: style_with(DisplayOutside::Block),
        }),
        geometry,
        containing_block,
    }
}

#[test]
fn collects_absolute_rects_for_nested_fragments() {
    // A box at (5, 7) inside the initial containing block, holding a box placed at (3, 4)
    // within it: layout reports their cumulative border boxes, and the traversal hands the
    // child its parent's content box as containing block.
    let initial_containing_block = rect(0, 0, 800, 600);
    let parent = visit(1, FragmentGeometry::Box(rect(5, 7, 100, 80)), initial_containing_block);
    let child = visit(2, FragmentGeometry::Box(rect(5 + 3, 7 + 4, 10, 20)), rect(5, 7, 100, 80));

    let metadata = collect_fragment_metadata_from_roots(&[parent, child]);

    assert_eq!(pixel_union(&metadata.get(&1).unwrap().rects), (5.0, 7.0, 100.0, 80.0));
    assert_eq!(pixel_union(&metadata.get(&2).unwrap().rects), (8.0, 11.0, 10.0, 20.0));
    assert_eq!(px(&metadata.get(&2).unwrap().rects[0]), (8.0, 11.0, 10.0, 20.0));
}

#[test]
fn text_fragments_are_placed_by_their_containing_block() {
    let text = visit(3, FragmentGeometry::Text(rect(3, 4, 10, 20)), rect(5, 7, 100, 80));
    let metadata = collect_fragment_metadata_from_roots(&[text]);
    assert_eq!(metadata.get(&3).unwrap().rects, vec![rect(8, 11, 10, 20)]);
    assert_eq!(metadata.get(&3).unwrap().fragment_count, 1);
}

#[test]
fn fragment_absolute_rect_by_kind() {
    let block = rect(5, 7, 100, 80);
    let own = rect(3, 4, 10, 20);
    assert_eq!(fragment_absolute_rect(&FragmentGeometry::Box(own), &block), Some(own));
    assert_eq!(fragment_absolute_rect(&FragmentGeometry::Float(own), &block), Some(own));
    assert_eq!(fragment_absolute_rect(&FragmentGeometry::Positioning(own), &block), Some(own));
    assert_eq!(fragment_absolute_rect(&FragmentGeometry::Text(own), &block), Some(rect(8, 11, 10, 20)));
    assert_eq!(fragment_absolute_rect(&FragmentGeometry::Image(own), &block), Some(rect(8, 11, 10, 20)));
    assert_eq!(fragment_absolute_rect(&FragmentGeometry::IFrame(own), &block), Some(rect(8, 11, 10, 20)));
    assert_eq!(fragment_absolute_rect(&FragmentGeometry::AbsoluteOrFixedPositioned, &block), None);
}

#[test]
fn translation_saturates_at_the_app_unit_range() {
    let near_edge = AppUnitRect { x: MAX_APP_UNITS - 10, y: MIN_APP_UNITS + 10, width: 5, height: 5 };
    let block = AppUnitRect { x: 100, y: -100, width: 0, height: 0 };
    let moved = fragment_absolute_rect(&FragmentGeometry::Text(near_edge), &block).unwrap();
    assert_eq!(moved, AppUnitRect { x: MAX_APP_UNITS, y: MIN_APP_UNITS, width: 5, height: 5 });
}

#[test]
fn fragments_of_one_node_are_united_and_counted() {
    let block = rect(0, 0, 800, 600);
    let first = visit(7, FragmentGeometry::Text(rect(10, 10, 50, 10)), block);
    let mut second = visit(7, FragmentGeometry::Text(rect(0, 20, 30, 10)), block);
    second.base.as_mut().unwrap().style = style_with(DisplayOutside::Inline);
    let metadata = collect_fragment_metadata_from_roots(&[first, second]);
    let entry = metadata.get(&7).unwrap();
    assert_eq!(entry.rects, vec![rect(10, 10, 50, 10), rect(0, 20, 30, 10)]);
    assert_eq!(pixel_union(&entry.rects), (0.0, 10.0, 60.0, 20.0));
    assert_eq!(entry.fragment_count, 2);
    // The style of the first fragment stays.
    assert_eq!(entry.style.display, TerminalDisplay::Block);
}

#[test]
fn empty_fragments_do_not_widen_the_union() {
    let block = rect(0, 0, 800, 600);
    let empty = visit(4, FragmentGeometry::Box(rect(500, 500, 0, 10)), block);
    let full = visit(4, FragmentGeometry::Box(rect(10, 10, 20, 20)), block);
    let metadata = collect_fragment_metadata_from_roots(&[empty, full]);
    let entry = metadata.get(&4).unwrap();
    assert_eq!(entry.rects, vec![rect(500, 500, 0, 10), rect(10, 10, 20, 20)]);
    assert_eq!(pixel_union(&entry.rects), (10.0, 10.0, 20.0, 20.0));
    assert_eq!(entry.fragment_count, 2);
}

#[test]
fn fragments_without_a_plain_tag_or_a_rect_are_skipped() {
    let block = rect(0, 0, 800, 600);
    let no_base = FragmentVisit { base: None, geometry: FragmentGeometry::Box(rect(1, 1, 1, 1)), containing_block: block };
    let no_tag = FragmentVisit {
        base: Some(FragmentBase { tag: None, style: style_with(DisplayOutside::Block) }),
        geometry: FragmentGeometry::Box(rect(1, 1, 1, 1)),
        containing_block: block,
    };
    let pseudo = FragmentVisit {
        base: Some(FragmentBase {
            tag: Some(FragmentTag { node_id: 9, in_pseudo_element: true }),
            style: style_with(DisplayOutside::Block),
        }),
        geometry: FragmentGeometry::Box(rect(1, 1, 1, 1)),
        containing_block: block,
    };
    let hoisted = visit(10, FragmentGeometry::AbsoluteOrFixedPositioned, block);
    let metadata = collect_fragment_metadata_from_roots(&[no_base, no_tag, pseudo, hoisted]);
    assert!(metadata.is_empty());
}

#[test]
fn metadata_counts_each_contributing_fragment() {
    let block = rect(0, 0, 800, 600);
    let visits: Vec<FragmentVisit> = (0..5)
        .map(|i| visit(if i % 2 == 0 { 1 } else { 2 }, FragmentGeometry::Box(rect(i, i, 10, 10)), block))
        .collect();
    let metadata = collect_fragment_metadata_from_roots(&visits);
    assert_eq!(metadata.len(), 2);
    assert_eq!(metadata.get(&1).unwrap().fragment_count, 3);
    assert_eq!(metadata.get(&2).unwrap().fragment_count, 2);
    assert_eq!(metadata.get(&1).unwrap().rects, vec![rect(0, 0, 10, 10), rect(2, 2, 10, 10), rect(4, 4, 10, 10)]);
    assert_eq!(pixel_union(&metadata.get(&1).unwrap().rects), (0.0, 0.0, 14.0, 14.0));
    assert_eq!(pixel_union(&metadata.get(&2).unwrap().rects), (1.0, 1.0, 12.0, 12.0));
}

#[test]
fn reordering_the_fragments_keeps_nodes_rects_and_counts() {
    let block = rect(0, 0, 800, 600);
    let visits = vec![
        visit(1, FragmentGeometry::Box(rect(10, 10, 50, 10)), block),
        visit(2, FragmentGeometry::Text(rect(3, 4, 10, 20)), rect(5, 7, 100, 80)),
        visit(1, FragmentGeometry::Box(rect(0, 30, 20, 5)), block),
        visit(3, FragmentGeometry::Image(rect(1, 1, 2, 2)), block),
        visit(1, FragmentGeometry::Float(rect(40, 0, 30, 40)), block),
    ];
    let mut reversed = visits.clone();
    reversed.reverse();
    let mut rotated = visits.clone();
    rotated.rotate_left(2);
    let expected = collect_fragment_metadata_from_roots(&visits);
    for other in [reversed, rotated] {
        let metadata = collect_fragment_metadata_from_roots(&other);
        assert_eq!(metadata.len(), expected.len());
        for (id, entry) in expected.iter() {
            let other_entry = metadata.get(id).unwrap();
            assert_eq!(sorted(&other_entry.rects), sorted(&entry.rects));
            assert_eq!(pixel_union(&other_entry.rects), pixel_union(&entry.rects));
            assert_eq!(other_entry.fragment_count, entry.fragment_count);
        }
    }
    assert_eq!(pixel_union(&expected.get(&1).unwrap().rects), (0.0, 0.0, 70.0, 40.0));
    assert_eq!(expected.get(&1).unwrap().fragment_count, 3);
}

#[test]
fn fragment_rectangles_are_kept_in_app_units_for_a_binary32_union() {
    let block = AppUnitRect { x: 0, y: 0, width: 48000, height: 36000 };
    let narrow = visit(5, FragmentGeometry::Box(AppUnitRect { x: 0, y: 0, width: 1, height: 60 }), block);
    let wide = visit(5, FragmentGeometry::Box(AppUnitRect { x: 26, y: 0, width: 60, height: 60 }), block);
    let metadata = collect_fragment_metadata_from_roots(&[narrow, wide]);
    let entry = metadata.get(&5).unwrap();
    assert_eq!(
        entry.rects,
        vec![AppUnitRect { x: 0, y: 0, width: 1, height: 60 }, AppUnitRect { x: 26, y: 0, width: 60, height: 60 }]
    );
    // The binary32 union rounds its far edge: 26/60 px + 1 px, not 86/60 px.
    let (_, _, width, _) = pixel_union(&entry.rects);
    assert_eq!(width, Au(26).to_f32_px() + 1.0);
    assert_eq!(width, 1.4333334f32);
}
