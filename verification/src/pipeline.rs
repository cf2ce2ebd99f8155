//! The pipeline: a chain of elements, linked in order, with the probes on
//! their pads and the state that the chain is in.

use vstd::prelude::*;
use crate::element::{
    DescriptorModel,
    Element,
    ElementDescriptor,
    ElementModel,
    PadDirection,
    can_link,
    descriptor_models,
    descriptor_names,
    element_models,
    element_names,
    has_pad,
    resolve,
};
use crate::error::{ErrorModel, PipelineError};
use crate::registry::{Context, ElementKind, ElementTypeModel, type_known};
use crate::text::{lemma_position_from, lemma_position_is, position_of, same_text};

verus! {

/// The state that a pipeline is in.
#[derive(Clone, Copy, Debug, PartialEq, Eq, Structural)]
pub enum PipelineState {
    /// Nothing flows; the state before a run and after it.
    Idle,
    /// Data flows from the source to the sink.
    Playing,
}

/// An inspection point on a pad of an element of the pipeline.
#[derive(Debug, PartialEq, Eq)]
pub struct Probe {
    /// Position of the element in the pipeline.
    pub element: usize,
    /// The pad of that element that the probe sits on.
    pub direction: PadDirection,
    /// The word that the probe's observations begin with.
    pub label: String,
}

/// Mathematical model of a [`Probe`].
pub struct ProbeModel {
    pub element: int,
    pub direction: PadDirection,
    pub label: Seq<char>,
}

impl View for Probe {
    type V = ProbeModel;

    open spec fn view(&self) -> ProbeModel {
        ProbeModel { element: self.element as int, direction: self.direction, label: self.label@ }
    }
}

/// The models of a list of probes, in order.
pub open spec fn probe_models(probes: Seq<Probe>) -> Seq<ProbeModel> {
    probes.map_values(|p: Probe| p@)
}

/// Mathematical model of a [`Pipeline`].
pub struct PipelineModel {
    pub elements: Seq<ElementModel>,
    pub probes: Seq<ProbeModel>,
    pub state: PipelineState,
}

/// Position of the first descriptor, from `start` on, whose type is not
/// among `types`; the number of descriptors where there is none.
pub open spec fn first_unknown_from(
    types: Seq<ElementTypeModel>,
    descriptors: Seq<DescriptorModel>,
    start: int,
) -> int
    decreases descriptors.len() - start,
{
    if start >= descriptors.len() {
        descriptors.len() as int
    } else if !type_known(types, descriptors[start].factory) {
        start
    } else {
        first_unknown_from(types, descriptors, start + 1)
    }
}

/// Position of the first name, from `start` on, that an earlier entry of
/// the list bears too; the length of the list where there is none.
pub open spec fn first_duplicate_from(names: Seq<Seq<char>>, start: int) -> int
    decreases names.len() - start,
{
    if start >= names.len() {
        names.len() as int
    } else if position_of(names, names[start]) < start {
        start
    } else {
        first_duplicate_from(names, start + 1)
    }
}

/// Position of the first element, from `start` on, from which data cannot
/// flow to the element after it; the number of elements where there is
/// none.
pub open spec fn first_unlinked_from(elements: Seq<ElementModel>, start: int) -> int
    decreases elements.len() - start,
{
    if start + 1 >= elements.len() {
        elements.len() as int
    } else if !can_link(elements[start], elements[start + 1]) {
        start
    } else {
        first_unlinked_from(elements, start + 1)
    }
}

/// The elements that a list of descriptors gives, in order.
pub open spec fn resolved(types: Seq<ElementTypeModel>, descriptors: Seq<DescriptorModel>) -> Seq<
    ElementModel,
> {
    Seq::new(descriptors.len(), |i: int| resolve(types, descriptors[i]))
}

/// What assembling a pipeline from `descriptors` ends in. The elements are
/// made first, in order, and the first type that is not available fails the
/// assembly. They are then added, and the first name that is taken already
/// fails it. They are then linked in order, and the first pair that cannot
/// be linked fails it. Else the pipeline holds the elements in the order of
/// the descriptors, without probes, and is idle.
pub open spec fn build_outcome(
    types: Seq<ElementTypeModel>,
    descriptors: Seq<DescriptorModel>,
) -> Result<PipelineModel, ErrorModel> {
    let unknown = first_unknown_from(types, descriptors, 0);
    let duplicate = first_duplicate_from(descriptor_names(descriptors), 0);
    let elements = resolved(types, descriptors);
    let unlinked = first_unlinked_from(elements, 0);
    if unknown < descriptors.len() {
        Err(ErrorModel::ElementNotFound(descriptors[unknown].factory))
    } else if duplicate < descriptors.len() {
        Err(ErrorModel::DuplicateName(descriptors[duplicate].name))
    } else if unlinked < descriptors.len() {
        Err(
            ErrorModel::LinkError {
                upstream: elements[unlinked].name,
                downstream: elements[unlinked + 1].name,
            },
        )
    } else {
        Ok(PipelineModel { elements, probes: Seq::empty(), state: PipelineState::Idle })
    }
}

/// No two elements bear the same name.
pub open spec fn distinct_names(elements: Seq<ElementModel>) -> bool {
    forall|i: int, j: int|
        #![trigger elements[i], elements[j]]
        0 <= i < j < elements.len() ==> elements[i].name != elements[j].name
}

/// Data can flow from each element to the one after it.
pub open spec fn linked_in_order(elements: Seq<ElementModel>) -> bool {
    forall|k: int|
        #![trigger elements[k]]
        0 <= k && k + 1 < elements.len() ==> can_link(elements[k], elements[k + 1])
}

/// Each probe sits on a pad that an element of the pipeline has.
pub open spec fn probes_attached(elements: Seq<ElementModel>, probes: Seq<ProbeModel>) -> bool {
    forall|p: int|
        #![trigger probes[p]]
        0 <= p < probes.len() ==> 0 <= probes[p].element < elements.len() && has_pad(
            elements[probes[p].element].kind,
            probes[p].direction,
        )
}

/// The invariant of a pipeline.
pub open spec fn model_well_formed(pipeline: PipelineModel) -> bool {
    &&& distinct_names(pipeline.elements)
    &&& linked_in_order(pipeline.elements)
    &&& probes_attached(pipeline.elements, pipeline.probes)
}

/// The pipeline can run: it begins with a source and ends with a sink.
pub open spec fn complete(pipeline: PipelineModel) -> bool {
    &&& pipeline.elements.len() >= 2
    &&& pipeline.elements[0].kind == ElementKind::Source
    &&& pipeline.elements[pipeline.elements.len() - 1].kind == ElementKind::Sink
}

/// What a result of assembling holds.
pub open spec fn outcome_model(outcome: Result<Pipeline, PipelineError>) -> Result<
    PipelineModel,
    ErrorModel,
> {
    match outcome {
        Ok(pipeline) => Ok(pipeline@),
        Err(error) => Err(error@),
    }
}

/// `first_unknown_from` points at the first descriptor whose type is not
/// available, or past the end where every type is.
pub proof fn lemma_first_unknown(
    types: Seq<ElementTypeModel>,
    descriptors: Seq<DescriptorModel>,
    start: int,
)
    requires
        0 <= start <= descriptors.len(),
    ensures
        start <= first_unknown_from(types, descriptors, start) <= descriptors.len(),
        first_unknown_from(types, descriptors, start) < descriptors.len() ==> !type_known(
            types,
            descriptors[first_unknown_from(types, descriptors, start)].factory,
        ),
        forall|k: int|
            start <= k < first_unknown_from(types, descriptors, start) ==> type_known(
                types,
                (#[trigger] descriptors[k]).factory,
            ),
    decreases descriptors.len() - start,
{
    if start < descriptors.len() && type_known(types, descriptors[start].factory) {
        lemma_first_unknown(types, descriptors, start + 1);
    }
}

/// `first_duplicate_from` points at the first name that occurs earlier in
/// the list too, or past the end where no name does.
pub proof fn lemma_first_duplicate(names: Seq<Seq<char>>, start: int)
    requires
        0 <= start <= names.len(),
    ensures
        start <= first_duplicate_from(names, start) <= names.len(),
        first_duplicate_from(names, start) < names.len() ==> position_of(
            names,
            names[first_duplicate_from(names, start)],
        ) < first_duplicate_from(names, start),
        forall|k: int|
            start <= k < first_duplicate_from(names, start) ==> position_of(
                names,
                #[trigger] names[k],
            ) >= k,
    decreases names.len() - start,
{
    if start < names.len() && position_of(names, names[start]) >= start {
        lemma_first_duplicate(names, start + 1);
    }
}

/// `first_unlinked_from` points at the first element that cannot be linked
/// to the one after it, or past the end where every pair can.
pub proof fn lemma_first_unlinked(elements: Seq<ElementModel>, start: int)
    requires
        0 <= start <= elements.len(),
    ensures
        start <= first_unlinked_from(elements, start) <= elements.len(),
        first_unlinked_from(elements, start) < elements.len() ==> {
            &&& first_unlinked_from(elements, start) + 1 < elements.len()
            &&& !can_link(
                elements[first_unlinked_from(elements, start)],
                elements[first_unlinked_from(elements, start) + 1],
            )
        },
        forall|k: int|
            #![trigger elements[k]]
            start <= k < first_unlinked_from(elements, start) && k + 1 < elements.len()
                ==> can_link(elements[k], elements[k + 1]),
    decreases elements.len() - start,
{
    if start + 1 < elements.len() && can_link(elements[start], elements[start + 1]) {
        lemma_first_unlinked(elements, start + 1);
    }
}

/// A pipeline that was assembled is well formed: its elements bear
/// distinct names and are linked in order, and every type was available.
pub proof fn lemma_built_is_well_formed(
    types: Seq<ElementTypeModel>,
    descriptors: Seq<DescriptorModel>,
)
    requires
        build_outcome(types, descriptors).is_ok(),
    ensures
        model_well_formed(build_outcome(types, descriptors)->Ok_0),
        build_outcome(types, descriptors)->Ok_0.elements.len() == descriptors.len(),
        forall|k: int|
            0 <= k < descriptors.len() ==> type_known(types, (#[trigger] descriptors[k]).factory),
{
    let names = descriptor_names(descriptors);
    let elements = resolved(types, descriptors);
    lemma_first_unknown(types, descriptors, 0);
    lemma_first_duplicate(names, 0);
    lemma_first_unlinked(elements, 0);
    assert forall|i: int, j: int|
        #![trigger elements[i], elements[j]]
        0 <= i < j < elements.len() implies elements[i].name != elements[j].name by {
        if elements[i].name == elements[j].name {
            lemma_position_from(names, names[j], 0);
            assert(names[i] == names[j]);
            assert(position_of(names, names[j]) >= j);
        }
    }
}

/// In a well-formed pipeline that can run, the first element is the only
/// source and the last element the only sink.
pub proof fn lemma_one_source_one_sink(pipeline: PipelineModel)
    requires
        model_well_formed(pipeline),
        complete(pipeline),
    ensures
        forall|k: int|
            #![trigger pipeline.elements[k]]
            0 <= k < pipeline.elements.len() ==> {
                &&& (pipeline.elements[k].kind == ElementKind::Source <==> k == 0)
                &&& (pipeline.elements[k].kind == ElementKind::Sink <==> k
                    == pipeline.elements.len() - 1)
            },
{
    let elements = pipeline.elements;
    assert forall|k: int|
        #![trigger elements[k]]
        0 <= k < elements.len() implies {
        &&& (elements[k].kind == ElementKind::Source <==> k == 0)
        &&& (elements[k].kind == ElementKind::Sink <==> k == elements.len() - 1)
    } by {
        if k > 0 {
            assert(can_link(elements[k - 1], elements[k]));
        }
        if k + 1 < elements.len() {
            assert(can_link(elements[k], elements[k + 1]));
        }
    }
}

/// Assembling a producer and a consumer whose types are available, whose
/// names differ and which share a format succeeds: the pipeline holds
/// exactly those two elements, linked in that order.
pub proof fn lemma_build_pair(
    types: Seq<ElementTypeModel>,
    producer: DescriptorModel,
    consumer: DescriptorModel,
)
    requires
        type_known(types, producer.factory),
        type_known(types, consumer.factory),
        producer.name != consumer.name,
        can_link(resolve(types, producer), resolve(types, consumer)),
    ensures
        build_outcome(types, seq![producer, consumer]) == Ok::<PipelineModel, ErrorModel>(
            PipelineModel {
                elements: seq![resolve(types, producer), resolve(types, consumer)],
                probes: Seq::empty(),
                state: PipelineState::Idle,
            },
        ),
        linked_in_order(seq![resolve(types, producer), resolve(types, consumer)]),
{
    let descriptors = seq![producer, consumer];
    let names = descriptor_names(descriptors);
    let elements = resolved(types, descriptors);
    assert(elements =~= seq![resolve(types, producer), resolve(types, consumer)]);
    lemma_first_unknown(types, descriptors, 0);
    lemma_first_duplicate(names, 0);
    lemma_first_unlinked(elements, 0);
    lemma_position_is(names, names[0], 0);
    lemma_position_is(names, names[1], 1);
    let unknown = first_unknown_from(types, descriptors, 0);
    if unknown < 2 {
        assert(!type_known(types, descriptors[unknown].factory));
    }
    let unlinked = first_unlinked_from(elements, 0);
    if unlinked < 2 {
        assert(unlinked + 1 < 2);
    }
}

/// Assembling fails with `ElementNotFound` as soon as one descriptor names
/// a type that is not available; the error names the first such type.
pub proof fn lemma_unknown_type_fails(
    types: Seq<ElementTypeModel>,
    descriptors: Seq<DescriptorModel>,
    at: int,
)
    requires
        0 <= at < descriptors.len(),
        !type_known(types, descriptors[at].factory),
    ensures
        build_outcome(types, descriptors) is Err,
        build_outcome(types, descriptors)->Err_0 is ElementNotFound,
        !type_known(types, build_outcome(types, descriptors)->Err_0->ElementNotFound_0),
        build_outcome(types, descriptors)->Err_0->ElementNotFound_0 == descriptors[first_unknown_from(
            types,
            descriptors,
            0,
        )].factory,
        first_unknown_from(types, descriptors, 0) <= at,
{
    lemma_first_unknown(types, descriptors, 0);
}

/// A chain of elements, linked in order, with the probes on their pads and
/// the state that the chain is in.
#[derive(Debug)]
pub struct Pipeline {
    elements: Vec<Element>,
    probes: Vec<Probe>,
    state: PipelineState,
}

impl View for Pipeline {
    type V = PipelineModel;

    closed spec fn view(&self) -> PipelineModel {
        PipelineModel {
            elements: element_models(self.elements@),
            probes: probe_models(self.probes@),
            state: self.state,
        }
    }
}

fn resolve_all(context: &Context, descriptors: &Vec<ElementDescriptor>) -> (outcome: Result<
    Vec<Element>,
    PipelineError,
>)
    ensures
        match outcome {
            Ok(elements) => {
                &&& first_unknown_from(context@, descriptor_models(descriptors@), 0)
                    == descriptors@.len()
                &&& element_models(elements@) == resolved(
                    context@,
                    descriptor_models(descriptors@),
                )
            },
            Err(error) => {
                &&& first_unknown_from(context@, descriptor_models(descriptors@), 0)
                    < descriptors@.len()
                &&& error@ == ErrorModel::ElementNotFound(
                    descriptor_models(descriptors@)[first_unknown_from(
                        context@,
                        descriptor_models(descriptors@),
                        0,
                    )].factory,
                )
            },
        },
{
    let ghost models = descriptor_models(descriptors@);
    let mut elements: Vec<Element> = Vec::new();
    let mut i: usize = 0;
    while i < descriptors.len()
        invariant
            0 <= i <= descriptors.len(),
            models == descriptor_models(descriptors@),
            elements@.len() == i,
            first_unknown_from(context@, models, i as int) == first_unknown_from(
                context@,
                models,
                0,
            ),
            forall|k: int| 0 <= k < i ==> (#[trigger] elements@[k])@ == resolve(context@, models[k]),
        decreases descriptors.len() - i,
    {
        let descriptor = &descriptors[i];
        assert(descriptor@ == models[i as int]);
        match context.find(descriptor.factory.as_str()) {
            None => {
                return Err(PipelineError::ElementNotFound(descriptor.factory.clone()));
            },
            Some(element_type) => {
                elements.push(Element::new(element_type, descriptor));
            },
        }
        i += 1;
    }
    assert(element_models(elements@) =~= resolved(context@, models));
    Ok(elements)
}

fn descriptor_position(descriptors: &Vec<ElementDescriptor>, name: &str) -> (at: usize)
    ensures
        at == position_of(descriptor_names(descriptor_models(descriptors@)), name@),
        at <= descriptors@.len(),
{
    let ghost names = descriptor_names(descriptor_models(descriptors@));
    let mut i: usize = 0;
    while i < descriptors.len()
        invariant
            0 <= i <= descriptors.len(),
            names == descriptor_names(descriptor_models(descriptors@)),
            forall|k: int| 0 <= k < i ==> names[k] != name@,
        decreases descriptors.len() - i,
    {
        assert(names[i as int] == descriptors@[i as int].name@);
        if same_text(descriptors[i].name.as_str(), name) {
            proof {
                lemma_position_is(names, name@, i as int);
            }
            return i;
        }
        i += 1;
    }
    proof {
        lemma_position_is(names, name@, i as int);
    }
    i
}

fn find_duplicate(descriptors: &Vec<ElementDescriptor>) -> (at: usize)
    ensures
        at == first_duplicate_from(descriptor_names(descriptor_models(descriptors@)), 0),
        at <= descriptors@.len(),
{
    let ghost names = descriptor_names(descriptor_models(descriptors@));
    let mut i: usize = 0;
    while i < descriptors.len()
        invariant
            0 <= i <= descriptors.len(),
            names == descriptor_names(descriptor_models(descriptors@)),
            first_duplicate_from(names, i as int) == first_duplicate_from(names, 0),
        decreases descriptors.len() - i,
    {
        assert(names[i as int] == descriptors@[i as int].name@);
        if descriptor_position(descriptors, descriptors[i].name.as_str()) < i {
            return i;
        }
        i += 1;
    }
    i
}

fn find_unlinked(elements: &Vec<Element>) -> (at: usize)
    ensures
        at == first_unlinked_from(element_models(elements@), 0),
        at <= elements@.len(),
{
    let ghost models = element_models(elements@);
    let mut i: usize = 0;
    while i < elements.len() && i + 1 < elements.len()
        invariant
            0 <= i <= elements.len(),
            models == element_models(elements@),
            first_unlinked_from(models, i as int) == first_unlinked_from(models, 0),
        decreases elements.len() - i,
    {
        assert(models[i as int] == elements@[i as int]@);
        assert(models[i + 1] == elements@[i + 1]@);
        if !elements[i].can_link(&elements[i + 1]) {
            return i;
        }
        i += 1;
    }
    elements.len()
}

/// Assembles a pipeline from a list of descriptors: makes each element from
/// its type in `context`, adds them under their names, and links each to
/// the next.
pub fn build(context: &Context, descriptors: &Vec<ElementDescriptor>) -> (outcome: Result<
    Pipeline,
    PipelineError,
>)
    ensures
        outcome_model(outcome) == build_outcome(context@, descriptor_models(descriptors@)),
        outcome is Ok ==> outcome->Ok_0.well_formed(),
{
    let ghost models = descriptor_models(descriptors@);
    let elements = match resolve_all(context, descriptors) {
        Ok(elements) => elements,
        Err(error) => {
            return Err(error);
        },
    };
    let duplicate = find_duplicate(descriptors);
    if duplicate < descriptors.len() {
        assert(models[duplicate as int] == descriptors@[duplicate as int]@);
        return Err(PipelineError::DuplicateName(descriptors[duplicate].name.clone()));
    }
    let unlinked = find_unlinked(&elements);
    if unlinked < elements.len() {
        proof {
            lemma_first_unlinked(element_models(elements@), 0);
        }
        assert(element_models(elements@)[unlinked as int] == elements@[unlinked as int]@);
        assert(element_models(elements@)[unlinked + 1] == elements@[unlinked + 1]@);
        return Err(
            PipelineError::LinkError {
                upstream: elements[unlinked].name.clone(),
                downstream: elements[unlinked + 1].name.clone(),
            },
        );
    }
    let pipeline = Pipeline { elements, probes: Vec::new(), state: PipelineState::Idle };
    proof {
        assert(pipeline@.probes =~= Seq::empty());
        lemma_built_is_well_formed(context@, models);
    }
    Ok(pipeline)
}

impl Pipeline {
    /// The invariant of a pipeline: distinct names, elements linked in
    /// order, probes on pads that exist.
    pub open spec fn well_formed(&self) -> bool {
        model_well_formed(self@)
    }

    /// Number of elements.
    pub fn len(&self) -> (count: usize)
        ensures
            count == self@.elements.len(),
    {
        self.elements.len()
    }

    /// The element at a position of the chain.
    pub fn element(&self, index: usize) -> (element: &Element)
        requires
            index < self@.elements.len(),
        ensures
            element@ == self@.elements[index as int],
    {
        &self.elements[index]
    }

    /// The state that the pipeline is in.
    pub fn state(&self) -> (state: PipelineState)
        ensures
            state == self@.state,
    {
        self.state
    }

    /// Number of probes.
    pub fn probe_count(&self) -> (count: usize)
        ensures
            count == self@.probes.len(),
    {
        self.probes.len()
    }

    /// The probe that was attached as the `index`-th.
    pub fn probe(&self, index: usize) -> (probe: &Probe)
        requires
            index < self@.probes.len(),
        ensures
            probe@ == self@.probes[index as int],
    {
        &self.probes[index]
    }

    /// Position of the element called `name`; the number of elements where
    /// there is none.
    pub fn position(&self, name: &str) -> (at: usize)
        ensures
            at == position_of(element_names(self@.elements), name@),
            at <= self@.elements.len(),
    {
        let ghost names = element_names(self@.elements);
        let mut i: usize = 0;
        while i < self.elements.len()
            invariant
                0 <= i <= self.elements.len(),
                names == element_names(self@.elements),
                forall|k: int| 0 <= k < i ==> names[k] != name@,
            decreases self.elements.len() - i,
        {
            assert(names[i as int] == self.elements@[i as int].name@);
            if same_text(self.elements[i].name.as_str(), name) {
                proof {
                    lemma_position_is(names, name@, i as int);
                }
                return i;
            }
            i += 1;
        }
        proof {
            lemma_position_is(names, name@, i as int);
        }
        i
    }

    /// Attaches a probe, whose observations begin with `label`, to the pad
    /// in the given direction of the element called `element`. Gives the
    /// number of the probe, or nothing where the pipeline has no element of
    /// that name or the element has no such pad: the pipeline is then left
    /// as it was.
    pub fn add_probe(&mut self, element: &str, direction: PadDirection, label: &str) -> (id:
        Option<usize>)
        ensures
            id.is_some() == probe_fits(old(self)@, element@, direction),
            id.is_some() ==> id == Some(old(self)@.probes.len() as usize),
            id.is_some() ==> final(self)@ == (PipelineModel {
                probes: old(self)@.probes.push(
                    ProbeModel {
                        element: position_of(element_names(old(self)@.elements), element@),
                        direction,
                        label: label@,
                    },
                ),
                ..old(self)@
            }),
            id.is_none() ==> final(self)@ == old(self)@,
            old(self).well_formed() ==> final(self).well_formed(),
    {
        let at = self.position(element);
        if at >= self.elements.len() {
            return None;
        }
        assert(self@.elements[at as int] == self.elements@[at as int]@);
        if !self.elements[at].has_pad(direction) {
            return None;
        }
        let id = self.probes.len();
        self.probes.push(Probe { element: at, direction, label: String::from_str(label) });
        assert(self@.probes =~= old(self)@.probes.push(
            ProbeModel { element: at as int, direction, label: label@ },
        ));
        Some(id)
    }

    /// Tells whether the pipeline can run.
    pub fn is_complete(&self) -> (can_run: bool)
        ensures
            can_run == complete(self@),
    {
        let count = self.elements.len();
        if count < 2 {
            return false;
        }
        assert(self@.elements[0] == self.elements@[0]@);
        assert(self@.elements[count - 1] == self.elements@[count - 1]@);
        let first_is_source = match self.elements[0].kind {
            ElementKind::Source => true,
            _ => false,
        };
        let last_is_sink = match self.elements[count - 1].kind {
            ElementKind::Sink => true,
            _ => false,
        };
        first_is_source && last_is_sink
    }

    /// Sets the pipeline playing. A pipeline that cannot run refuses, and
    /// stays as it was.
    pub fn start(&mut self) -> (outcome: Result<(), PipelineError>)
        ensures
            outcome.is_ok() == complete(old(self)@),
            outcome.is_ok() ==> final(self)@ == (PipelineModel {
                state: PipelineState::Playing,
                ..old(self)@
            }),
            outcome.is_err() ==> final(self)@ == old(self)@ && outcome->Err_0@
                == ErrorModel::StateTransitionError,
    {
        if !self.is_complete() {
            return Err(PipelineError::StateTransitionError);
        }
        self.state = PipelineState::Playing;
        Ok(())
    }

    /// Returns the pipeline to the idle state, whatever state it was in.
    pub fn stop(&mut self)
        ensures
            final(self)@ == (PipelineModel { state: PipelineState::Idle, ..old(self)@ }),
    {
        self.state = PipelineState::Idle;
    }
}

/// A probe can be attached to the pad in the given direction of the
/// element called `element`: the pipeline has that element, and the element
/// has that pad.
pub open spec fn probe_fits(
    pipeline: PipelineModel,
    element: Seq<char>,
    direction: PadDirection,
) -> bool {
    let at = position_of(element_names(pipeline.elements), element);
    at < pipeline.elements.len() && has_pad(pipeline.elements[at].kind, direction)
}

} // verus!
