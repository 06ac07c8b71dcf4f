//! Per-node layout metadata gathered from the fragments that layout produced.

use vstd::prelude::*;
use vstd::multiset::Multiset;

use rustc_hash::{FxBuildHasher, FxHashMap};

use crate::geometry::{AppUnitRect, au_add, rect_translate, spec_rect_translate};
use crate::style::{ComputedStyleValues, spec_terminal_css_properties, terminal_css_properties};
use crate::terminal::TerminalCssProperties;

verus! {

/// `rustc_hash::FxBuildHasher`, the hasher of `FxHashMap`.
#[verifier::external_type_specification]
#[verifier::external_body]
pub struct ExFxBuildHasher(FxBuildHasher);

/// The DOM node a fragment was generated for.
#[derive(Clone, Copy, Debug, PartialEq, Eq)]
pub struct FragmentTag {
    /// The opaque id of the node.
    pub node_id: usize,
    /// The fragment was generated for a pseudo-element of the node (its pseudo-element
    /// chain is not empty).
    pub in_pseudo_element: bool,
}

/// The part shared by fragments that have a base: the node they stem from and the
/// computed values of their style.
#[derive(Clone, Copy, Debug, PartialEq, Eq)]
pub struct FragmentBase {
    pub tag: Option<FragmentTag>,
    pub style: ComputedStyleValues,
}

/// What kind of fragment it is, with the rectangle layout gives it.
#[derive(Clone, Copy, Debug, PartialEq, Eq)]
pub enum FragmentGeometry {
    /// A box fragment, with its cumulative border box rectangle (already absolute).
    Box(AppUnitRect),
    /// A float, with its cumulative border box rectangle (already absolute).
    Float(AppUnitRect),
    /// A positioning fragment, with its rectangle offset by its containing block.
    Positioning(AppUnitRect),
    /// A text run, with its rectangle relative to its containing block.
    Text(AppUnitRect),
    /// An image, with its rectangle relative to its containing block.
    Image(AppUnitRect),
    /// An iframe, with its rectangle relative to its containing block.
    IFrame(AppUnitRect),
    /// A hoisted absolutely or fixed positioned box; it has no rectangle of its own.
    AbsoluteOrFixedPositioned,
}

/// A fragment as the traversal of the fragment tree reaches it, with the containing
/// block that the traversal hands it.
#[derive(Clone, Copy, Debug, PartialEq, Eq)]
pub struct FragmentVisit {
    pub base: Option<FragmentBase>,
    pub geometry: FragmentGeometry,
    pub containing_block: AppUnitRect,
}

/// What the fragments of one node add up to.
#[derive(Clone, Debug, PartialEq)]
pub struct FragmentMetadata {
    /// The absolute rectangles of the node's fragments, in app units and in traversal
    /// order. The node's rectangle is their union, taken on their binary32 CSS-pixel
    /// conversions (`Au::to_f32_px`, then `euclid::Rect::union` from the first onwards);
    /// that floating-point union is computed where the tree is handed to a front end.
    pub rects: Vec<AppUnitRect>,
    /// The terminal style of the first of the node's fragments.
    pub style: TerminalCssProperties,
    /// How many fragments the node has.
    pub fragment_count: usize,
}

/// The mathematical value of a node's metadata.
pub struct FragmentSummary {
    pub rects: Seq<AppUnitRect>,
    pub style: TerminalCssProperties,
    pub fragment_count: usize,
}

impl FragmentMetadata {
    /// The value of the metadata.
    pub open spec fn summary(self) -> FragmentSummary {
        FragmentSummary { rects: self.rects@, style: self.style, fragment_count: self.fragment_count }
    }
}

/// The value of a metadata map.
pub open spec fn metadata_view(map: Map<usize, FragmentMetadata>) -> Map<usize, FragmentSummary> {
    map.map_values(|entry: FragmentMetadata| entry.summary())
}

impl FragmentGeometry {
    /// The rectangle carried by the fragment, if any.
    pub open spec fn carried_rect(self) -> Option<AppUnitRect> {
        match self {
            FragmentGeometry::Box(r) => Some(r),
            FragmentGeometry::Float(r) => Some(r),
            FragmentGeometry::Positioning(r) => Some(r),
            FragmentGeometry::Text(r) => Some(r),
            FragmentGeometry::Image(r) => Some(r),
            FragmentGeometry::IFrame(r) => Some(r),
            FragmentGeometry::AbsoluteOrFixedPositioned => None,
        }
    }
}

impl FragmentVisit {
    /// All rectangles of the visit hold valid app units.
    pub open spec fn is_valid(self) -> bool {
        &&& self.containing_block.is_valid()
        &&& (self.geometry.carried_rect() matches Some(r) ==> r.is_valid())
    }
}

/// All visits hold valid app units.
pub open spec fn visits_valid(visits: Seq<FragmentVisit>) -> bool {
    forall|i: int| 0 <= i < visits.len() ==> #[trigger] visits[i].is_valid()
}

/// The absolute rectangle of a fragment: box, float and positioning rectangles are
/// already absolute, text, image and iframe rectangles are moved by the origin of the
/// containing block, and hoisted boxes have none.
pub open spec fn spec_fragment_absolute_rect(
    geometry: FragmentGeometry,
    containing_block: AppUnitRect,
) -> Option<AppUnitRect> {
    match geometry {
        FragmentGeometry::Box(r) | FragmentGeometry::Float(r) | FragmentGeometry::Positioning(r) => Some(r),
        FragmentGeometry::Text(r) | FragmentGeometry::Image(r) | FragmentGeometry::IFrame(r) =>
            Some(spec_rect_translate(r, containing_block.x, containing_block.y)),
        FragmentGeometry::AbsoluteOrFixedPositioned => None,
    }
}

/// What a visited fragment contributes: its node, absolute rectangle and terminal style,
/// if it has a base with a tag outside any pseudo-element and has a rectangle.
pub open spec fn spec_visit_contribution(visit: FragmentVisit) -> Option<(usize, AppUnitRect, TerminalCssProperties)> {
    match visit.base {
        None => None,
        Some(base) => match base.tag {
            None => None,
            Some(tag) => if tag.in_pseudo_element {
                None
            } else {
                match spec_fragment_absolute_rect(visit.geometry, visit.containing_block) {
                    None => None,
                    Some(rect) => Some((tag.node_id, rect, spec_terminal_css_properties(base.style))),
                }
            },
        },
    }
}

/// The metadata after one more contribution: a node seen before gets the new rectangle
/// appended and its count raised, keeping its first style; a new node starts with the
/// contribution and a count of one.
pub open spec fn spec_add_contribution(
    metadata: Map<usize, FragmentSummary>,
    contribution: (usize, AppUnitRect, TerminalCssProperties),
) -> Map<usize, FragmentSummary> {
    let (id, rect, style) = contribution;
    if metadata.contains_key(id) {
        let entry = metadata[id];
        metadata.insert(id, FragmentSummary {
            rects: entry.rects.push(rect),
            style: entry.style,
            fragment_count: (entry.fragment_count + 1) as usize,
        })
    } else {
        metadata.insert(id, FragmentSummary { rects: seq![rect], style, fragment_count: 1 })
    }
}

/// The metadata gathered from a sequence of visits, in order.
pub open spec fn spec_collect_fragment_metadata(visits: Seq<FragmentVisit>) -> Map<usize, FragmentSummary>
    decreases visits.len(),
{
    if visits.len() == 0 {
        Map::empty()
    } else {
        let before = spec_collect_fragment_metadata(visits.drop_last());
        match spec_visit_contribution(visits.last()) {
            Some(contribution) => spec_add_contribution(before, contribution),
            None => before,
        }
    }
}

/// `HashMap::get` on an `FxHashMap`: the value stored under `key`, if any.
/// `FxBuildHasher` builds unseeded `FxHasher`s that hash equal keys alike, so the map
/// behaves as std documents it.
#[verifier::external_body]
pub(crate) fn fx_map_get<V>(map: &FxHashMap<usize, V>, key: usize) -> (result: Option<&V>)
    ensures
        match result {
            Some(value) => map@.contains_key(key) && *value == map@[key],
            None => !map@.contains_key(key),
        },
{
    map.get(&key)
}

/// `HashMap::remove` on an `FxHashMap`: the value stored under `key`, if any, taken out
/// of the map; every other key is unchanged. `FxBuildHasher` builds unseeded `FxHasher`s
/// that hash equal keys alike, so the map behaves as std documents it.
#[verifier::external_body]
pub(crate) fn fx_map_remove<V>(map: &mut FxHashMap<usize, V>, key: usize) -> (result: Option<V>)
    ensures
        final(map)@ == old(map)@.remove(key),
        match result {
            Some(value) => old(map)@.contains_key(key) && value == old(map)@[key],
            None => !old(map)@.contains_key(key),
        },
{
    map.remove(&key)
}

/// `HashMap::insert` on an `FxHashMap`: afterwards `key` maps to `value` and every other
/// key is unchanged. `FxBuildHasher` builds unseeded `FxHasher`s that hash equal keys
/// alike, so the map behaves as std documents it.
#[verifier::external_body]
pub(crate) fn fx_map_insert<V>(map: &mut FxHashMap<usize, V>, key: usize, value: V)
    ensures
        final(map)@ == old(map)@.insert(key, value),
{
    map.insert(key, value);
}

/// The absolute rectangle of a fragment, if it has one.
pub fn fragment_absolute_rect(
    geometry: &FragmentGeometry,
    containing_block: &AppUnitRect,
) -> (result: Option<AppUnitRect>)
    requires
        containing_block.is_valid(),
        geometry.carried_rect() matches Some(r) ==> r.is_valid(),
    ensures
        result == spec_fragment_absolute_rect(*geometry, *containing_block),
{
    match geometry {
        FragmentGeometry::Box(rect) | FragmentGeometry::Float(rect) | FragmentGeometry::Positioning(rect) => {
            Some(*rect)
        },
        FragmentGeometry::Text(rect) | FragmentGeometry::Image(rect) | FragmentGeometry::IFrame(rect) => {
            Some(rect_translate(rect, containing_block.x, containing_block.y))
        },
        FragmentGeometry::AbsoluteOrFixedPositioned => None,
    }
}

/// Gathers, per node, the absolute rectangles of its fragments in traversal order (in app
/// units; their pixel union is taken where the tree reaches a front end), the style of
/// its first fragment and its fragment count. `visits` are the fragments reached from the
/// root fragments, in traversal order; fragments without a base, without a tag, of a
/// pseudo-element or without a rectangle are skipped.
pub fn collect_fragment_metadata_from_roots(visits: &[FragmentVisit]) -> (result: FxHashMap<usize, FragmentMetadata>)
    requires
        visits_valid(visits@),
    ensures
        metadata_view(result@) == spec_collect_fragment_metadata(visits@),
{
    let mut metadata: FxHashMap<usize, FragmentMetadata> = FxHashMap::default();
    let mut i: usize = 0;
    proof {
        assert(metadata_view(metadata@) =~= Map::empty());
    }
    while i < visits.len()
        invariant
            i <= visits@.len(),
            visits_valid(visits@),
            metadata_view(metadata@) == spec_collect_fragment_metadata(visits@.take(i as int)),
            forall|id: usize| #[trigger] metadata@.contains_key(id) ==> metadata@[id].fragment_count <= i,
        decreases visits.len() - i,
    {
        let visit = &visits[i];
        proof {
            assert(visits@.take(i + 1).drop_last() =~= visits@.take(i as int));
            assert(visits@.take(i + 1).last() == visits@[i as int]);
            assert(visits@[i as int].is_valid());
        }
        let ghost before = metadata@;
        if let Some(base) = &visit.base {
            if let Some(tag) = &base.tag {
                if !tag.in_pseudo_element {
                    if let Some(rect) = fragment_absolute_rect(&visit.geometry, &visit.containing_block) {
                        let style = terminal_css_properties(&base.style);
                        match fx_map_remove(&mut metadata, tag.node_id) {
                            Some(entry) => {
                                let mut rects = entry.rects;
                                rects.push(rect);
                                let merged = FragmentMetadata {
                                    rects,
                                    style: entry.style,
                                    fragment_count: entry.fragment_count + 1,
                                };
                                let ghost merged_summary = merged.summary();
                                fx_map_insert(&mut metadata, tag.node_id, merged);
                                proof {
                                    assert(metadata@ =~= before.insert(tag.node_id, metadata@[tag.node_id]));
                                    assert(metadata_view(metadata@) =~= metadata_view(before).insert(tag.node_id, merged_summary));
                                }
                            },
                            None => {
                                let mut rects: Vec<AppUnitRect> = Vec::new();
                                rects.push(rect);
                                let fresh = FragmentMetadata { rects, style, fragment_count: 1 };
                                let ghost fresh_summary = fresh.summary();
                                fx_map_insert(&mut metadata, tag.node_id, fresh);
                                proof {
                                    assert(fresh_summary.rects =~= seq![rect]);
                                    assert(metadata_view(metadata@) =~= metadata_view(before).insert(tag.node_id, fresh_summary));
                                }
                            },
                        }
                    }
                }
            }
        }
        i = i + 1;
    }
    proof {
        assert(visits@.take(visits@.len() as int) =~= visits@);
    }
    metadata
}

} // verus!

verus! {

/// Whether a visit contributes to node `id`.
pub open spec fn contributes_to(visit: FragmentVisit, id: usize) -> bool {
    spec_visit_contribution(visit) matches Some(contribution) && contribution.0 == id
}

/// How many of the visits satisfy `matches`.
pub open spec fn count_visits(visits: Seq<FragmentVisit>, matches: spec_fn(FragmentVisit) -> bool) -> nat
    decreases visits.len(),
{
    if visits.len() == 0 {
        0
    } else {
        count_visits(visits.drop_last(), matches) + if matches(visits.last()) {
            1nat
        } else {
            0nat
        }
    }
}

/// How many of the visits contribute to node `id`.
pub open spec fn contribution_count(visits: Seq<FragmentVisit>, id: usize) -> nat {
    count_visits(visits, |visit: FragmentVisit| contributes_to(visit, id))
}

/// How many of the visits contribute rectangle `rect` to node `id`.
pub open spec fn rect_contribution_count(visits: Seq<FragmentVisit>, id: usize, rect: AppUnitRect) -> nat {
    count_visits(
        visits,
        |visit: FragmentVisit| contributes_to(visit, id) && spec_visit_contribution(visit).unwrap().1 == rect,
    )
}

/// The rectangles contributed to node `id`, in visit order.
pub open spec fn contributed_rects(visits: Seq<FragmentVisit>, id: usize) -> Seq<AppUnitRect>
    decreases visits.len(),
{
    if visits.len() == 0 {
        Seq::empty()
    } else {
        let before = contributed_rects(visits.drop_last(), id);
        if contributes_to(visits.last(), id) {
            before.push(spec_visit_contribution(visits.last()).unwrap().1)
        } else {
            before
        }
    }
}

/// The terminal style of the first visit that contributes to node `id`, if any.
pub open spec fn first_contributed_style(visits: Seq<FragmentVisit>, id: usize) -> Option<TerminalCssProperties>
    decreases visits.len(),
{
    if visits.len() == 0 {
        None
    } else {
        match first_contributed_style(visits.drop_last(), id) {
            Some(style) => Some(style),
            None => if contributes_to(visits.last(), id) {
                Some(spec_visit_contribution(visits.last()).unwrap().2)
            } else {
                None
            },
        }
    }
}

proof fn lemma_count_visits_bound(visits: Seq<FragmentVisit>, matches: spec_fn(FragmentVisit) -> bool)
    ensures
        count_visits(visits, matches) <= visits.len(),
    decreases visits.len(),
{
    if visits.len() > 0 {
        lemma_count_visits_bound(visits.drop_last(), matches);
    }
}

/// Law: a node has metadata exactly when some visited fragment contributes to it. Its
/// rectangles are those of the contributing fragments, in visit order; its fragment count
/// is their number, and its style is that of the first of them.
pub proof fn law_metadata_counts_contributions(visits: Seq<FragmentVisit>, id: usize)
    requires
        visits.len() <= usize::MAX,
    ensures
        spec_collect_fragment_metadata(visits).contains_key(id) <==> contribution_count(visits, id) > 0,
        spec_collect_fragment_metadata(visits).contains_key(id) ==> {
            let entry = spec_collect_fragment_metadata(visits)[id];
            &&& entry.rects == contributed_rects(visits, id)
            &&& entry.fragment_count == contribution_count(visits, id)
            &&& entry.fragment_count == entry.rects.len()
            &&& first_contributed_style(visits, id) == Some(entry.style)
        },
        !spec_collect_fragment_metadata(visits).contains_key(id) ==> {
            &&& first_contributed_style(visits, id) is None
            &&& contributed_rects(visits, id).len() == 0
        },
    decreases visits.len(),
{
    if visits.len() > 0 {
        law_metadata_counts_contributions(visits.drop_last(), id);
        lemma_count_visits_bound(visits.drop_last(), |visit: FragmentVisit| contributes_to(visit, id));
    }
}

proof fn lemma_count_visits_remove(visits: Seq<FragmentVisit>, matches: spec_fn(FragmentVisit) -> bool, k: int)
    requires
        0 <= k < visits.len(),
    ensures
        count_visits(visits, matches) == count_visits(visits.remove(k), matches)
            + if matches(visits[k]) { 1nat } else { 0nat },
    decreases visits.len(),
{
    let last = visits.len() - 1;
    if k == last {
        assert(visits.remove(k) =~= visits.drop_last());
    } else {
        lemma_count_visits_remove(visits.drop_last(), matches, k);
        assert(visits.remove(k).drop_last() =~= visits.drop_last().remove(k));
        assert(visits.remove(k).last() == visits.last());
        assert(visits.drop_last()[k] == visits[k]);
    }
}

proof fn lemma_count_visits_permutation(
    first: Seq<FragmentVisit>,
    second: Seq<FragmentVisit>,
    matches: spec_fn(FragmentVisit) -> bool,
)
    requires
        first.to_multiset() =~= second.to_multiset(),
    ensures
        count_visits(first, matches) == count_visits(second, matches),
    decreases second.len(),
{
    broadcast use vstd::seq_lib::group_to_multiset_ensures;
    broadcast use vstd::multiset::group_multiset_axioms;

    assert(first.len() == first.to_multiset().len());
    assert(second.len() == second.to_multiset().len());
    if second.len() == 0 {
        assert(first.len() == 0);
    } else {
        let x = second.last();
        let rest = second.drop_last();
        assert(second =~= rest.push(x));
        assert(second.to_multiset().count(x) > 0);
        assert(first.contains(x));
        let k = choose|k: int| 0 <= k < first.len() && first[k] == x;
        assert(first.remove(k).to_multiset() =~= first.to_multiset().remove(x));
        assert(rest.to_multiset() =~= second.to_multiset().remove(x));
        lemma_count_visits_permutation(first.remove(k), rest, matches);
        lemma_count_visits_remove(first, matches, k);
    }
}

proof fn lemma_contributed_rects_counts(visits: Seq<FragmentVisit>, id: usize, rect: AppUnitRect)
    ensures
        contributed_rects(visits, id).to_multiset().count(rect) == rect_contribution_count(visits, id, rect),
    decreases visits.len(),
{
    broadcast use vstd::seq_lib::group_to_multiset_ensures;
    broadcast use vstd::multiset::group_multiset_axioms;

    if visits.len() == 0 {
        assert(contributed_rects(visits, id).to_multiset() =~= Multiset::empty());
    } else {
        lemma_contributed_rects_counts(visits.drop_last(), id, rect);
    }
}

/// Law: the metadata does not depend on the order in which the fragments are visited (as
/// when the root fragments are reordered): any reordering of the visits gives the same
/// nodes, with the same fragment counts and the same rectangles up to their order (so
/// the same union wherever the union does not depend on the order in which it is
/// taken); only the style, taken from a node's first fragment, may change.
pub proof fn law_metadata_is_independent_of_visit_order(first: Seq<FragmentVisit>, second: Seq<FragmentVisit>)
    requires
        first.to_multiset() =~= second.to_multiset(),
        first.len() <= usize::MAX,
    ensures
        forall|id: usize| #[trigger] spec_collect_fragment_metadata(first).contains_key(id)
            <==> spec_collect_fragment_metadata(second).contains_key(id),
        forall|id: usize| #[trigger] spec_collect_fragment_metadata(first).contains_key(id) ==> {
            &&& spec_collect_fragment_metadata(first)[id].fragment_count
                == spec_collect_fragment_metadata(second)[id].fragment_count
            &&& spec_collect_fragment_metadata(first)[id].rects.to_multiset()
                =~= spec_collect_fragment_metadata(second)[id].rects.to_multiset()
        },
{
    broadcast use vstd::seq_lib::group_to_multiset_ensures;

    assert(first.len() == first.to_multiset().len());
    assert(second.len() == second.to_multiset().len());
    assert forall|id: usize| #[trigger] spec_collect_fragment_metadata(first).contains_key(id)
        <==> spec_collect_fragment_metadata(second).contains_key(id) by {
        law_metadata_counts_contributions(first, id);
        law_metadata_counts_contributions(second, id);
        lemma_count_visits_permutation(first, second, |visit: FragmentVisit| contributes_to(visit, id));
    }
    assert forall|id: usize| #[trigger] spec_collect_fragment_metadata(first).contains_key(id) implies {
        &&& spec_collect_fragment_metadata(first)[id].fragment_count
            == spec_collect_fragment_metadata(second)[id].fragment_count
        &&& spec_collect_fragment_metadata(first)[id].rects.to_multiset()
            =~= spec_collect_fragment_metadata(second)[id].rects.to_multiset()
    } by {
        law_metadata_counts_contributions(first, id);
        law_metadata_counts_contributions(second, id);
        lemma_count_visits_permutation(first, second, |visit: FragmentVisit| contributes_to(visit, id));
        assert forall|rect: AppUnitRect| #[trigger] contributed_rects(first, id).to_multiset().count(rect)
            == contributed_rects(second, id).to_multiset().count(rect) by {
            lemma_contributed_rects_counts(first, id, rect);
            lemma_contributed_rects_counts(second, id, rect);
            lemma_count_visits_permutation(
                first,
                second,
                |visit: FragmentVisit| contributes_to(visit, id) && spec_visit_contribution(visit).unwrap().1 == rect,
            );
        }
    }
}

} // verus!

verus! {

/// Law: a visited fragment that stems from a pseudo-element contributes nothing, whatever
/// its geometry: visiting it leaves the gathered metadata as it was. The same holds of
/// fragments without a base or without a tag, and of fragments without a rectangle.
pub proof fn law_skipped_fragments_change_nothing(visits: Seq<FragmentVisit>, visit: FragmentVisit)
    requires
        visit.base is None || visit.base.unwrap().tag is None || visit.base.unwrap().tag.unwrap().in_pseudo_element
            || visit.geometry is AbsoluteOrFixedPositioned,
    ensures
        spec_collect_fragment_metadata(visits.push(visit)) == spec_collect_fragment_metadata(visits),
{
    assert(visits.push(visit).drop_last() =~= visits);
    assert(visits.push(visit).last() == visit);
}

/// Law: a fragment with a base and a tag outside any pseudo-element, and with a
/// rectangle, counts for its node: visiting it adds its absolute rectangle at the end of
/// the node's rectangles and raises its count by one, and a node seen for the first time
/// takes the fragment's style.
pub proof fn law_counted_fragment_extends_its_node(visits: Seq<FragmentVisit>, visit: FragmentVisit)
    requires
        visit.base matches Some(base) && base.tag matches Some(tag) && !tag.in_pseudo_element,
        !(visit.geometry is AbsoluteOrFixedPositioned),
        spec_collect_fragment_metadata(visits).contains_key(visit.base.unwrap().tag.unwrap().node_id)
            ==> spec_collect_fragment_metadata(visits)[visit.base.unwrap().tag.unwrap().node_id].fragment_count
            < usize::MAX,
    ensures
        ({
            let id = visit.base.unwrap().tag.unwrap().node_id;
            let rect = spec_fragment_absolute_rect(visit.geometry, visit.containing_block).unwrap();
            let before = spec_collect_fragment_metadata(visits);
            let after = spec_collect_fragment_metadata(visits.push(visit));
            &&& after.contains_key(id)
            &&& after.remove(id) == before.remove(id)
            &&& before.contains_key(id) ==> {
                &&& after[id].rects == before[id].rects.push(rect)
                &&& after[id].fragment_count == before[id].fragment_count + 1
                &&& after[id].style == before[id].style
            }
            &&& !before.contains_key(id) ==> {
                &&& after[id].rects == seq![rect]
                &&& after[id].fragment_count == 1
                &&& after[id].style == spec_terminal_css_properties(visit.base.unwrap().style)
            }
        }),
{
    assert(visits.push(visit).drop_last() =~= visits);
    assert(visits.push(visit).last() == visit);
    let id = visit.base.unwrap().tag.unwrap().node_id;
    let before = spec_collect_fragment_metadata(visits);
    let after = spec_collect_fragment_metadata(visits.push(visit));
    assert(after.remove(id) =~= before.remove(id));
}

/// Law: boxes, floats and positioning fragments keep the rectangle layout gave them;
/// text runs, images and iframes are moved by the origin of their containing block (with
/// `Au`'s clamping addition) and keep their size; hoisted boxes have no rectangle.
pub proof fn law_absolute_rect_by_kind(geometry: FragmentGeometry, containing_block: AppUnitRect)
    ensures
        (geometry is Box || geometry is Float || geometry is Positioning)
            ==> spec_fragment_absolute_rect(geometry, containing_block) == geometry.carried_rect(),
        (geometry is Text || geometry is Image || geometry is IFrame) ==> {
            let own = geometry.carried_rect().unwrap();
            let moved = spec_fragment_absolute_rect(geometry, containing_block).unwrap();
            &&& spec_fragment_absolute_rect(geometry, containing_block) is Some
            &&& moved.x == au_add(own.x as int, containing_block.x as int)
            &&& moved.y == au_add(own.y as int, containing_block.y as int)
            &&& moved.width == own.width
            &&& moved.height == own.height
        },
        geometry is AbsoluteOrFixedPositioned ==> spec_fragment_absolute_rect(geometry, containing_block) is None,
{
}

} // verus!
