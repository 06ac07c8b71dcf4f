//! The document nodes that the terminal tree is built from, and how each is classified.

use vstd::prelude::*;

use crate::terminal::{TerminalElementData, TerminalElementRole, TerminalNodeKind};

verus! {

/// The element types that decide an element's terminal role; all others are `Other`.
#[derive(Clone, Copy, Debug, PartialEq, Eq)]
pub enum LayoutElementType {
    HTMLIFrameElement,
    HTMLImageElement,
    HTMLInputElement,
    HTMLObjectElement,
    HTMLSelectElement,
    HTMLTextAreaElement,
    SVGImageElement,
    Other,
}

/// The type of a node as layout sees it.
#[derive(Clone, Copy, Debug, PartialEq, Eq)]
pub enum LayoutNodeType {
    Element(LayoutElementType),
    Text,
}

/// An attribute in the null namespace.
#[derive(Clone, Debug, PartialEq)]
pub struct SourceAttribute {
    pub name: String,
    pub value: String,
}

/// A node of the document, with what classification reads of it.
#[derive(Debug)]
pub struct LayoutSourceNode {
    /// The node's opaque id, the key of its fragments' metadata.
    pub opaque_id: usize,
    /// `None` for nodes that are neither elements nor text (the document, for one).
    pub type_id: Option<LayoutNodeType>,
    /// The text of a text node.
    pub text_content: String,
    /// The local name of an element.
    pub local_name: String,
    /// The attributes of an element in the null namespace, in document order.
    pub attributes: Vec<SourceAttribute>,
    pub children: Vec<LayoutSourceNode>,
}

/// The value of the first attribute called `name`, if any.
pub open spec fn spec_get_attribute(attributes: Seq<SourceAttribute>, name: Seq<char>) -> Option<String>
    decreases attributes.len(),
{
    if attributes.len() == 0 {
        None
    } else if attributes[0].name@ == name {
        Some(attributes[0].value)
    } else {
        spec_get_attribute(attributes.drop_first(), name)
    }
}

/// The role of an element: links and buttons by their tag name, form controls, images
/// (including objects and SVG images), selects and iframes by their element type, and
/// every other element generic.
pub open spec fn spec_classify_element_role(tag_name: Seq<char>, type_id: Option<LayoutNodeType>) -> TerminalElementRole {
    if tag_name == "a"@ {
        TerminalElementRole::Link
    } else if tag_name == "button"@ {
        TerminalElementRole::Button
    } else {
        match type_id {
            Some(LayoutNodeType::Element(LayoutElementType::HTMLInputElement)) => TerminalElementRole::Input,
            Some(LayoutNodeType::Element(LayoutElementType::HTMLTextAreaElement)) => TerminalElementRole::TextArea,
            Some(LayoutNodeType::Element(LayoutElementType::HTMLImageElement))
            | Some(LayoutNodeType::Element(LayoutElementType::HTMLObjectElement))
            | Some(LayoutNodeType::Element(LayoutElementType::SVGImageElement)) => TerminalElementRole::Image,
            Some(LayoutNodeType::Element(LayoutElementType::HTMLSelectElement)) => TerminalElementRole::Select,
            Some(LayoutNodeType::Element(LayoutElementType::HTMLIFrameElement)) => TerminalElementRole::IFrame,
            _ => TerminalElementRole::Generic,
        }
    }
}

/// The terminal kind of a node: text nodes keep their text, elements their tag name,
/// role and the `href`, `src` (or else `data`), `alt`, `value` and `title` attributes,
/// and every other node is the document.
pub open spec fn spec_classify_node(node: LayoutSourceNode) -> TerminalNodeKind {
    match node.type_id {
        Some(LayoutNodeType::Text) => TerminalNodeKind::Text(node.text_content),
        Some(LayoutNodeType::Element(_)) => {
            let attributes = node.attributes@;
            TerminalNodeKind::Element(TerminalElementData {
                tag_name: node.local_name,
                role: spec_classify_element_role(node.local_name@, node.type_id),
                href: spec_get_attribute(attributes, "href"@),
                src: match spec_get_attribute(attributes, "src"@) {
                    Some(value) => Some(value),
                    None => spec_get_attribute(attributes, "data"@),
                },
                alt: spec_get_attribute(attributes, "alt"@),
                value: spec_get_attribute(attributes, "value"@),
                title: spec_get_attribute(attributes, "title"@),
            })
        },
        None => TerminalNodeKind::Document,
    }
}

/// Whether two strings hold the same characters.
fn same_text(a: &str, b: &str) -> (result: bool)
    ensures
        result == (a@ == b@),
{
    let a = a.to_owned();
    let b = b.to_owned();
    a == b
}

/// The value of the first attribute called `name`, if any.
pub fn get_attribute(attributes: &Vec<SourceAttribute>, name: &str) -> (result: Option<String>)
    ensures
        result == spec_get_attribute(attributes@, name@),
{
    let mut i: usize = 0;
    proof {
        assert(attributes@.skip(0) =~= attributes@);
    }
    while i < attributes.len()
        invariant
            i <= attributes@.len(),
            spec_get_attribute(attributes@, name@) == spec_get_attribute(attributes@.skip(i as int), name@),
        decreases attributes.len() - i,
    {
        proof {
            assert(attributes@.skip(i as int).drop_first() =~= attributes@.skip(i + 1));
            assert(attributes@.skip(i as int)[0] == attributes@[i as int]);
        }
        if same_text(attributes[i].name.as_str(), name) {
            return Some(attributes[i].value.clone());
        }
        i = i + 1;
    }
    None
}

/// The role of an element with the given tag name and node type.
pub fn classify_element_role(tag_name: &str, type_id: Option<LayoutNodeType>) -> (result: TerminalElementRole)
    ensures
        result == spec_classify_element_role(tag_name@, type_id),
{
    if same_text(tag_name, "a") {
        return TerminalElementRole::Link;
    }

    if same_text(tag_name, "button") {
        return TerminalElementRole::Button;
    }

    match type_id {
        Some(LayoutNodeType::Element(LayoutElementType::HTMLInputElement)) => {
            TerminalElementRole::Input
        },
        Some(LayoutNodeType::Element(LayoutElementType::HTMLTextAreaElement)) => {
            TerminalElementRole::TextArea
        },
        Some(LayoutNodeType::Element(LayoutElementType::HTMLImageElement)) |
        Some(LayoutNodeType::Element(LayoutElementType::HTMLObjectElement)) |
        Some(LayoutNodeType::Element(LayoutElementType::SVGImageElement)) => {
            TerminalElementRole::Image
        },
        Some(LayoutNodeType::Element(LayoutElementType::HTMLSelectElement)) => {
            TerminalElementRole::Select
        },
        Some(LayoutNodeType::Element(LayoutElementType::HTMLIFrameElement)) => {
            TerminalElementRole::IFrame
        },
        _ => TerminalElementRole::Generic,
    }
}

/// The terminal kind of a node.
pub fn classify_node(node: &LayoutSourceNode) -> (result: TerminalNodeKind)
    ensures
        result == spec_classify_node(*node),
{
    match node.type_id {
        Some(LayoutNodeType::Text) => TerminalNodeKind::Text(node.text_content.clone()),
        Some(LayoutNodeType::Element(_)) => {
            let tag_name = node.local_name.clone();
            let href = get_attribute(&node.attributes, "href");
            let src = match get_attribute(&node.attributes, "src") {
                Some(value) => Some(value),
                None => get_attribute(&node.attributes, "data"),
            };
            let alt = get_attribute(&node.attributes, "alt");
            let value = get_attribute(&node.attributes, "value");
            let title = get_attribute(&node.attributes, "title");
            let role = classify_element_role(tag_name.as_str(), node.type_id);

            TerminalNodeKind::Element(TerminalElementData {
                tag_name,
                role,
                href,
                src,
                alt,
                value,
                title,
            })
        },
        None => TerminalNodeKind::Document,
    }
}

} // verus!

verus! {

/// Law: an attribute lookup finds the first attribute with the name asked for: with no
/// attribute of that name it finds nothing, and otherwise it gives the value of the
/// earliest attribute that has the name.
pub proof fn law_get_attribute_finds_first_match(attributes: Seq<SourceAttribute>, name: Seq<char>)
    ensures
        (forall|i: int| 0 <= i < attributes.len() ==> (#[trigger] attributes[i]).name@ != name)
            ==> spec_get_attribute(attributes, name) is None,
        forall|i: int| 0 <= i < attributes.len() && (#[trigger] attributes[i]).name@ == name
            && (forall|j: int| 0 <= j < i ==> attributes[j].name@ != name)
            ==> spec_get_attribute(attributes, name) == Some(attributes[i].value),
    decreases attributes.len(),
{
    if attributes.len() > 0 {
        let rest = attributes.drop_first();
        law_get_attribute_finds_first_match(rest, name);
        assert forall|i: int| 0 <= i < rest.len() implies rest[i] == attributes[i + 1] by {}
        if attributes[0].name@ != name {
            assert forall|i: int| 0 <= i < attributes.len() && (#[trigger] attributes[i]).name@ == name
                && (forall|j: int| 0 <= j < i ==> attributes[j].name@ != name)
                implies spec_get_attribute(attributes, name) == Some(attributes[i].value) by {
                assert(i > 0);
                assert(rest[i - 1] == attributes[i]);
                assert forall|j: int| 0 <= j < i - 1 implies rest[j].name@ != name by {
                    assert(rest[j] == attributes[j + 1]);
                }
            }
            if forall|i: int| 0 <= i < attributes.len() ==> (#[trigger] attributes[i]).name@ != name {
                assert forall|i: int| 0 <= i < rest.len() implies (#[trigger] rest[i]).name@ != name by {
                    assert(rest[i] == attributes[i + 1]);
                }
            }
        } else {
            assert forall|i: int| 0 <= i < attributes.len() && (#[trigger] attributes[i]).name@ == name
                && (forall|j: int| 0 <= j < i ==> attributes[j].name@ != name)
                implies spec_get_attribute(attributes, name) == Some(attributes[i].value) by {
                if i > 0 {
                    assert(attributes[0].name@ != name);
                }
            }
        }
    }
}

/// Any value an attribute lookup finds is the value of an attribute with that name.
pub proof fn lemma_get_attribute_found_value(attributes: Seq<SourceAttribute>, name: Seq<char>)
    ensures
        spec_get_attribute(attributes, name) matches Some(value) ==> exists|i: int|
            0 <= i < attributes.len() && (#[trigger] attributes[i]).name@ == name && attributes[i].value == value,
    decreases attributes.len(),
{
    if attributes.len() > 0 && attributes[0].name@ != name {
        let rest = attributes.drop_first();
        lemma_get_attribute_found_value(rest, name);
        if let Some(value) = spec_get_attribute(attributes, name) {
            let i = choose|i: int| 0 <= i < rest.len() && (#[trigger] rest[i]).name@ == name && rest[i].value == value;
            assert(attributes[i + 1] == rest[i]);
        }
    }
}

/// Law: an element is a link exactly when its tag name is `a`, and a button exactly when
/// its tag name is `button`, whatever its element type; every other element of a type
/// without a role of its own (`Other`, or no element type) is generic.
pub proof fn law_link_and_button_roles_come_from_tag_names(tag_name: Seq<char>, type_id: Option<LayoutNodeType>)
    ensures
        spec_classify_element_role(tag_name, type_id) is Link <==> tag_name == "a"@,
        spec_classify_element_role(tag_name, type_id) is Button <==> tag_name == "button"@,
        tag_name != "a"@ && tag_name != "button"@ && (type_id is None || type_id == Some(
            LayoutNodeType::Element(LayoutElementType::Other),
        ) || type_id == Some(LayoutNodeType::Text)) ==> spec_classify_element_role(tag_name, type_id) is Generic,
{
    reveal_strlit("a");
    reveal_strlit("button");
    assert("a"@.len() != "button"@.len());
}

/// Law: apart from links and buttons, an element's role follows its element type alone:
/// inputs, text areas, selects and iframes have their own roles, and images, objects and
/// SVG images are images.
pub proof fn law_other_roles_come_from_element_types(tag_name: Seq<char>, kind: LayoutElementType)
    requires
        tag_name != "a"@,
        tag_name != "button"@,
    ensures
        spec_classify_element_role(tag_name, Some(LayoutNodeType::Element(kind))) is Input
            <==> kind is HTMLInputElement,
        spec_classify_element_role(tag_name, Some(LayoutNodeType::Element(kind))) is TextArea
            <==> kind is HTMLTextAreaElement,
        spec_classify_element_role(tag_name, Some(LayoutNodeType::Element(kind))) is Image
            <==> (kind is HTMLImageElement || kind is HTMLObjectElement || kind is SVGImageElement),
        spec_classify_element_role(tag_name, Some(LayoutNodeType::Element(kind))) is Select
            <==> kind is HTMLSelectElement,
        spec_classify_element_role(tag_name, Some(LayoutNodeType::Element(kind))) is IFrame
            <==> kind is HTMLIFrameElement,
        spec_classify_element_role(tag_name, Some(LayoutNodeType::Element(kind))) is Generic <==> kind is Other,
{
}

/// Law: an element's kind reports its own attributes. Its `src` comes from its `src`
/// attribute, or, failing that, from its `data` attribute: it is the value of an
/// attribute with one of those names, it is the first `src` attribute's value when there
/// is one, and it is absent when the element has neither. Its `href`, `alt`, `value` and
/// `title` are the values of the first attributes with those names, and absent without
/// one. Text nodes keep their text, and nodes that are neither elements nor text are the
/// document.
pub proof fn law_node_kind_reports_its_attributes(node: LayoutSourceNode)
    ensures
        node.type_id matches Some(LayoutNodeType::Element(_)) ==> spec_classify_node(node) matches
            TerminalNodeKind::Element(data) && {
            let attributes = node.attributes@;
            &&& data.tag_name == node.local_name
            &&& (data.src matches Some(value) ==> exists|i: int| 0 <= i < attributes.len()
                && ((#[trigger] attributes[i]).name@ == "src"@ || attributes[i].name@ == "data"@)
                && attributes[i].value == value)
            &&& (forall|i: int| 0 <= i < attributes.len() ==> (#[trigger] attributes[i]).name@ != "src"@
                && attributes[i].name@ != "data"@) ==> data.src is None
            &&& forall|i: int| 0 <= i < attributes.len() && (#[trigger] attributes[i]).name@ == "src"@
                && (forall|j: int| 0 <= j < i ==> attributes[j].name@ != "src"@)
                ==> data.src == Some(attributes[i].value)
            &&& data.href == spec_get_attribute(attributes, "href"@)
            &&& data.alt == spec_get_attribute(attributes, "alt"@)
            &&& data.value == spec_get_attribute(attributes, "value"@)
            &&& data.title == spec_get_attribute(attributes, "title"@)
        },
        node.type_id == Some(LayoutNodeType::Text) ==> spec_classify_node(node) == TerminalNodeKind::Text(
            node.text_content,
        ),
        node.type_id is None ==> spec_classify_node(node) is Document,
{
    let attributes = node.attributes@;
    law_get_attribute_finds_first_match(attributes, "src"@);
    law_get_attribute_finds_first_match(attributes, "data"@);
    lemma_get_attribute_found_value(attributes, "src"@);
    lemma_get_attribute_found_value(attributes, "data"@);
    if node.type_id matches Some(LayoutNodeType::Element(_)) {
        if let TerminalNodeKind::Element(data) = spec_classify_node(node) {
            if (forall|i: int| 0 <= i < attributes.len() ==> (#[trigger] attributes[i]).name@ != "src"@
                && attributes[i].name@ != "data"@) {
                assert forall|i: int| 0 <= i < attributes.len() implies (#[trigger] attributes[i]).name@ != "src"@ by {}
                assert forall|i: int| 0 <= i < attributes.len() implies (#[trigger] attributes[i]).name@ != "data"@ by {}
            }
        }
    }
}

} // verus!
