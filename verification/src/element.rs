//! Elements: the descriptors that they are made from, and what an element
//! made from a descriptor and its type holds.

use vstd::prelude::*;
use crate::caps::{Caps, CapsModel, caps_intersect};
use crate::registry::{ElementKind, ElementType, ElementTypeModel, type_position};
use crate::text::same_text;

verus! {

/// One end of an element through which data flows.
#[derive(Clone, Copy, Debug, PartialEq, Eq, Structural)]
pub enum PadDirection {
    /// The pad that data leaves the element through.
    Src,
    /// The pad that data enters the element through.
    Sink,
}

/// An element of this kind has a pad in this direction.
pub open spec fn has_pad(kind: ElementKind, direction: PadDirection) -> bool {
    match direction {
        PadDirection::Src => kind != ElementKind::Sink,
        PadDirection::Sink => kind != ElementKind::Source,
    }
}

/// The kind of an element that has these pads: a source has a source pad
/// only, a sink a sink pad only, and anything else passes data on.
pub fn kind_from_pads(has_src: bool, has_sink: bool) -> (kind: ElementKind)
    ensures
        kind == (if has_src && !has_sink {
            ElementKind::Source
        } else if has_sink && !has_src {
            ElementKind::Sink
        } else {
            ElementKind::Filter
        }),
{
    if has_src && !has_sink {
        ElementKind::Source
    } else if has_sink && !has_src {
        ElementKind::Sink
    } else {
        ElementKind::Filter
    }
}

/// Tells whether an element of this kind has a pad in this direction.
pub fn kind_has_pad(kind: ElementKind, direction: PadDirection) -> (has: bool)
    ensures
        has == has_pad(kind, direction),
{
    match direction {
        PadDirection::Src => match kind {
            ElementKind::Sink => false,
            _ => true,
        },
        PadDirection::Sink => match kind {
            ElementKind::Source => false,
            _ => true,
        },
    }
}

/// The value of a property: text, a number, or a capability set.
#[derive(Debug, PartialEq, Eq)]
pub enum PropertyValue {
    Text(String),
    Number(i64),
    Caps(Caps),
}

/// Mathematical model of a [`PropertyValue`].
pub enum PropertyValueModel {
    Text(Seq<char>),
    Number(int),
    Caps(CapsModel),
}

impl View for PropertyValue {
    type V = PropertyValueModel;

    open spec fn view(&self) -> PropertyValueModel {
        match self {
            PropertyValue::Text(t) => PropertyValueModel::Text(t@),
            PropertyValue::Number(n) => PropertyValueModel::Number(*n as int),
            PropertyValue::Caps(c) => PropertyValueModel::Caps(c@),
        }
    }
}

impl PropertyValue {
    /// A copy of the value.
    pub fn duplicate(&self) -> (copy: PropertyValue)
        ensures
            copy@ == self@,
    {
        match self {
            PropertyValue::Text(t) => PropertyValue::Text(t.clone()),
            PropertyValue::Number(n) => PropertyValue::Number(*n),
            PropertyValue::Caps(c) => PropertyValue::Caps(c.duplicate()),
        }
    }
}

/// A named setting of an element.
#[derive(Debug, PartialEq, Eq)]
pub struct Property {
    pub name: String,
    pub value: PropertyValue,
}

/// Mathematical model of a [`Property`].
pub struct PropertyModel {
    pub name: Seq<char>,
    pub value: PropertyValueModel,
}

impl View for Property {
    type V = PropertyModel;

    open spec fn view(&self) -> PropertyModel {
        PropertyModel { name: self.name@, value: self.value@ }
    }
}

impl Property {
    /// A copy of the property.
    pub fn duplicate(&self) -> (copy: Property)
        ensures
            copy@ == self@,
    {
        Property { name: self.name.clone(), value: self.value.duplicate() }
    }
}

/// The models of a list of properties, in order.
pub open spec fn property_models(properties: Seq<Property>) -> Seq<PropertyModel> {
    properties.map_values(|p: Property| p@)
}

/// A copy of a list of properties.
pub fn duplicate_properties(properties: &Vec<Property>) -> (copy: Vec<Property>)
    ensures
        property_models(copy@) == property_models(properties@),
{
    let mut copy: Vec<Property> = Vec::new();
    let mut i: usize = 0;
    while i < properties.len()
        invariant
            0 <= i <= properties.len(),
            copy@.len() == i,
            forall|k: int| 0 <= k < i ==> (#[trigger] copy@[k])@ == properties@[k]@,
        decreases properties.len() - i,
    {
        copy.push(properties[i].duplicate());
        i += 1;
    }
    assert(property_models(copy@) =~= property_models(properties@));
    copy
}

/// What an element is to be made from: the name of its type, the name of
/// the instance, and its properties.
#[derive(Debug, PartialEq, Eq)]
pub struct ElementDescriptor {
    pub factory: String,
    pub name: String,
    pub properties: Vec<Property>,
}

/// Mathematical model of an [`ElementDescriptor`].
pub struct DescriptorModel {
    pub factory: Seq<char>,
    pub name: Seq<char>,
    pub properties: Seq<PropertyModel>,
}

impl View for ElementDescriptor {
    type V = DescriptorModel;

    open spec fn view(&self) -> DescriptorModel {
        DescriptorModel {
            factory: self.factory@,
            name: self.name@,
            properties: property_models(self.properties@),
        }
    }
}

impl ElementDescriptor {
    /// A descriptor without properties.
    pub fn new(factory: &str, name: &str) -> (descriptor: ElementDescriptor)
        ensures
            descriptor@ == (DescriptorModel {
                factory: factory@,
                name: name@,
                properties: Seq::empty(),
            }),
    {
        let descriptor = ElementDescriptor {
            factory: String::from_str(factory),
            name: String::from_str(name),
            properties: Vec::new(),
        };
        assert(descriptor@.properties =~= Seq::empty());
        descriptor
    }

    /// The descriptor with one more property, added after the others.
    pub fn property(self, name: &str, value: PropertyValue) -> (descriptor: ElementDescriptor)
        ensures
            descriptor@ == (DescriptorModel {
                properties: self@.properties.push(PropertyModel { name: name@, value: value@ }),
                ..self@
            }),
    {
        let mut descriptor = self;
        descriptor.properties.push(Property { name: String::from_str(name), value });
        assert(descriptor@.properties =~= self@.properties.push(
            PropertyModel { name: name@, value: value@ },
        ));
        descriptor
    }
}

/// The models of a list of descriptors, in order.
pub open spec fn descriptor_models(descriptors: Seq<ElementDescriptor>) -> Seq<DescriptorModel> {
    descriptors.map_values(|d: ElementDescriptor| d@)
}

/// The instance names of a list of descriptors, in order.
pub open spec fn descriptor_names(descriptors: Seq<DescriptorModel>) -> Seq<Seq<char>> {
    descriptors.map_values(|d: DescriptorModel| d.name)
}

/// The name of the property that constrains the format of a filter.
pub open spec fn caps_key() -> Seq<char> {
    seq!['c', 'a', 'p', 's']
}

/// The capability set of the first property, from `start` on, that is
/// called `caps` and holds a capability set.
pub open spec fn caps_property_from(properties: Seq<PropertyModel>, start: int) -> Option<
    CapsModel,
>
    decreases properties.len() - start,
{
    if start >= properties.len() {
        None
    } else if properties[start].name == caps_key() && properties[start].value is Caps {
        Some(properties[start].value->Caps_0)
    } else {
        caps_property_from(properties, start + 1)
    }
}

/// The formats that the pads of an element admit: for a filter with a
/// `caps` property that holds a capability set, that set; for any other
/// element, the capability set of its type.
pub open spec fn effective_caps(
    element_type: ElementTypeModel,
    properties: Seq<PropertyModel>,
) -> CapsModel {
    if element_type.kind == ElementKind::Filter && caps_property_from(properties, 0).is_some() {
        caps_property_from(properties, 0).unwrap()
    } else {
        element_type.caps
    }
}

/// An element of a pipeline.
#[derive(Debug, PartialEq, Eq)]
pub struct Element {
    pub factory: String,
    pub name: String,
    pub kind: ElementKind,
    pub caps: Caps,
    pub properties: Vec<Property>,
}

/// Mathematical model of an [`Element`].
pub struct ElementModel {
    pub factory: Seq<char>,
    pub name: Seq<char>,
    pub kind: ElementKind,
    pub caps: CapsModel,
    pub properties: Seq<PropertyModel>,
}

impl View for Element {
    type V = ElementModel;

    open spec fn view(&self) -> ElementModel {
        ElementModel {
            factory: self.factory@,
            name: self.name@,
            kind: self.kind,
            caps: self.caps@,
            properties: property_models(self.properties@),
        }
    }
}

/// The models of a list of elements, in order.
pub open spec fn element_models(elements: Seq<Element>) -> Seq<ElementModel> {
    elements.map_values(|e: Element| e@)
}

/// The instance names of a list of elements, in order.
pub open spec fn element_names(elements: Seq<ElementModel>) -> Seq<Seq<char>> {
    elements.map_values(|e: ElementModel| e.name)
}

/// The element that a descriptor and its type give.
pub open spec fn instantiate(element_type: ElementTypeModel, descriptor: DescriptorModel) -> ElementModel {
    ElementModel {
        factory: descriptor.factory,
        name: descriptor.name,
        kind: element_type.kind,
        caps: effective_caps(element_type, descriptor.properties),
        properties: descriptor.properties,
    }
}

/// The element that a descriptor gives with the type that `types` holds
/// under the descriptor's type name.
pub open spec fn resolve(types: Seq<ElementTypeModel>, descriptor: DescriptorModel) -> ElementModel {
    instantiate(types[type_position(types, descriptor.factory)], descriptor)
}

/// Data can flow from `upstream` to `downstream`: the first has a source
/// pad, the second a sink pad, and the two share a format.
pub open spec fn can_link(upstream: ElementModel, downstream: ElementModel) -> bool {
    &&& has_pad(upstream.kind, PadDirection::Src)
    &&& has_pad(downstream.kind, PadDirection::Sink)
    &&& caps_intersect(upstream.caps, downstream.caps)
}

fn find_caps_property(properties: &Vec<Property>) -> (found: Option<&Caps>)
    ensures
        found.is_some() == caps_property_from(property_models(properties@), 0).is_some(),
        found.is_some() ==> found.unwrap()@ == caps_property_from(
            property_models(properties@),
            0,
        ).unwrap(),
{
    let ghost models = property_models(properties@);
    proof {
        reveal_strlit("caps");
        assert("caps"@ =~= caps_key());
    }
    let mut i: usize = 0;
    while i < properties.len()
        invariant
            0 <= i <= properties.len(),
            models == property_models(properties@),
            "caps"@ == caps_key(),
            caps_property_from(models, i as int) == caps_property_from(models, 0),
        decreases properties.len() - i,
    {
        let property = &properties[i];
        assert(property@ == models[i as int]);
        if same_text(property.name.as_str(), "caps") {
            match &property.value {
                PropertyValue::Caps(caps) => {
                    return Some(caps);
                },
                _ => {},
            }
        }
        i += 1;
    }
    None
}

impl Element {
    /// The element that `descriptor` gives with the type `element_type`.
    pub fn new(element_type: &ElementType, descriptor: &ElementDescriptor) -> (element: Element)
        ensures
            element@ == instantiate(element_type@, descriptor@),
    {
        let caps = match element_type.kind {
            ElementKind::Filter => match find_caps_property(&descriptor.properties) {
                Some(caps) => caps.duplicate(),
                None => element_type.caps.duplicate(),
            },
            _ => element_type.caps.duplicate(),
        };
        Element {
            factory: descriptor.factory.clone(),
            name: descriptor.name.clone(),
            kind: element_type.kind,
            caps,
            properties: duplicate_properties(&descriptor.properties),
        }
    }

    /// Tells whether this element has a pad in the given direction.
    pub fn has_pad(&self, direction: PadDirection) -> (has: bool)
        ensures
            has == has_pad(self@.kind, direction),
    {
        kind_has_pad(self.kind, direction)
    }

    /// Tells whether data can flow from this element to `downstream`.
    pub fn can_link(&self, downstream: &Element) -> (linked: bool)
        ensures
            linked == can_link(self@, downstream@),
    {
        kind_has_pad(self.kind, PadDirection::Src) && kind_has_pad(
            downstream.kind,
            PadDirection::Sink,
        ) && self.caps.can_intersect(&downstream.caps)
    }
}

} // verus!
