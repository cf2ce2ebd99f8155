//! Assembling a pipeline from a plan, with a probe at either end, and the
//! plan of the test pipeline: a video test source, a filter that fixes the
//! format, and a video sink.

use vstd::prelude::*;
use crate::caps::{video_caps, video_caps_model};
use crate::element::{
    DescriptorModel,
    ElementDescriptor,
    ElementModel,
    PadDirection,
    PropertyModel,
    PropertyValue,
    PropertyValueModel,
    can_link,
    descriptor_models,
    element_names,
    has_pad,
};
use crate::error::{ErrorModel, PipelineError};
use crate::parse::{
    factory_of,
    launch,
    launch_outcome,
    lemma_missing_type_reported_once,
    parse_outcome,
    split,
    words,
};
use crate::pipeline::{
    Pipeline,
    PipelineModel,
    ProbeModel,
    build,
    build_outcome,
    lemma_built_is_well_formed,
    linked_in_order,
    model_well_formed,
    outcome_model,
};
use crate::registry::{Context, ElementTypeModel, type_known};
use crate::text::{lemma_position_from, lemma_position_is, position_of};

verus! {

/// What a pipeline is to be assembled from: a list of element descriptors,
/// or a textual description.
#[derive(Debug, PartialEq, Eq)]
pub enum Plan {
    Elements(Vec<ElementDescriptor>),
    Description(String),
}

/// Mathematical model of a [`Plan`].
pub enum PlanModel {
    Elements(Seq<DescriptorModel>),
    Description(Seq<char>),
}

impl View for Plan {
    type V = PlanModel;

    open spec fn view(&self) -> PlanModel {
        match self {
            Plan::Elements(descriptors) => PlanModel::Elements(descriptor_models(descriptors@)),
            Plan::Description(text) => PlanModel::Description(text@),
        }
    }
}

/// What assembling the elements of a plan ends in.
pub open spec fn plan_outcome(types: Seq<ElementTypeModel>, plan: PlanModel) -> Result<
    PipelineModel,
    ErrorModel,
> {
    match plan {
        PlanModel::Elements(descriptors) => build_outcome(types, descriptors),
        PlanModel::Description(text) => launch_outcome(types, text),
    }
}

/// The probes at the ends of a chain: `src` on the source pad of the first
/// element and `sink` on the sink pad of the last, each where the element
/// has that pad.
pub open spec fn end_probes(elements: Seq<ElementModel>) -> Seq<ProbeModel> {
    let first = if elements.len() > 0 && has_pad(elements[0].kind, PadDirection::Src) {
        seq![ProbeModel { element: 0, direction: PadDirection::Src, label: "src"@ }]
    } else {
        Seq::empty()
    };
    let last = if elements.len() > 0 && has_pad(
        elements[elements.len() - 1].kind,
        PadDirection::Sink,
    ) {
        seq![
            ProbeModel {
                element: elements.len() - 1,
                direction: PadDirection::Sink,
                label: "sink"@,
            },
        ]
    } else {
        Seq::empty()
    };
    first + last
}

/// The two probes of a chain of `count` elements: `src` on the first
/// element and `sink` on the last.
pub open spec fn chain_probes(count: int) -> Seq<ProbeModel> {
    seq![
        ProbeModel { element: 0, direction: PadDirection::Src, label: "src"@ },
        ProbeModel { element: count - 1, direction: PadDirection::Sink, label: "sink"@ },
    ]
}

/// What assembling a pipeline from a plan ends in: the failure of
/// assembling its elements, or the pipeline of those elements, with the
/// probes at its ends where they are asked for.
pub open spec fn pipeline_outcome(
    types: Seq<ElementTypeModel>,
    plan: PlanModel,
    with_probes: bool,
) -> Result<PipelineModel, ErrorModel> {
    match plan_outcome(types, plan) {
        Ok(built) => Ok(
            if with_probes {
                PipelineModel { probes: end_probes(built.elements), ..built }
            } else {
                built
            },
        ),
        Err(error) => Err(error),
    }
}

/// A chain of two or more elements that are linked in order has both of
/// its probes: `src` on the first element and `sink` on the last.
pub proof fn lemma_end_probes_of_chain(elements: Seq<ElementModel>)
    requires
        elements.len() >= 2,
        linked_in_order(elements),
    ensures
        end_probes(elements) == chain_probes(elements.len() as int),
{
    let last = elements.len() - 1;
    assert(can_link(elements[0], elements[1]));
    assert(can_link(elements[last - 1], elements[last - 1 + 1]));
    assert(end_probes(elements) =~= chain_probes(elements.len() as int));
}

/// Assembling from a description with a segment that begins with the
/// name of a type that is not available fails, whatever else the
/// description holds, with `ParseError`, whose list of missing types holds
/// that type exactly once and holds no type that is available: the type is
/// not passed over, and the failure is not `ElementNotFound`.
pub proof fn lemma_description_with_missing_type(
    types: Seq<ElementTypeModel>,
    text: Seq<char>,
    at: int,
    with_probes: bool,
)
    requires
        0 <= at < split(text, '!').len(),
        factory_of(words(split(text, '!')[at])) is Some,
        !type_known(types, factory_of(words(split(text, '!')[at]))->Some_0),
    ensures
        pipeline_outcome(types, PlanModel::Description(text), with_probes) is Err,
        pipeline_outcome(types, PlanModel::Description(text), with_probes)->Err_0 is ParseError,
        pipeline_outcome(
            types,
            PlanModel::Description(text),
            with_probes,
        )->Err_0->missing_elements.contains(factory_of(words(split(text, '!')[at]))->Some_0),
        pipeline_outcome(
            types,
            PlanModel::Description(text),
            with_probes,
        )->Err_0->missing_elements.no_duplicates(),
        forall|m: int|
            0 <= m < pipeline_outcome(
                types,
                PlanModel::Description(text),
                with_probes,
            )->Err_0->missing_elements.len() ==> !type_known(
                types,
                #[trigger] pipeline_outcome(
                    types,
                    PlanModel::Description(text),
                    with_probes,
                )->Err_0->missing_elements[m],
            ),
{
    lemma_missing_type_reported_once(types, text, at);
}

fn assemble(context: &Context, plan: &Plan) -> (outcome: Result<Pipeline, PipelineError>)
    ensures
        outcome_model(outcome) == plan_outcome(context@, plan@),
        outcome is Ok ==> outcome->Ok_0.well_formed(),
        outcome is Ok ==> outcome->Ok_0@.probes == Seq::<ProbeModel>::empty(),
{
    let outcome = match plan {
        Plan::Elements(descriptors) => build(context, descriptors),
        Plan::Description(text) => launch(context, text.as_str()),
    };
    proof {
        if outcome is Ok {
            lemma_built_has_no_probes(context@, plan@);
        }
    }
    outcome
}

fn attach_end_probes(pipeline: &mut Pipeline)
    requires
        old(pipeline).well_formed(),
        old(pipeline)@.probes == Seq::<ProbeModel>::empty(),
    ensures
        final(pipeline)@ == (PipelineModel {
            probes: end_probes(old(pipeline)@.elements),
            ..old(pipeline)@
        }),
        final(pipeline).well_formed(),
        final(pipeline)@.elements.len() >= 2 ==> final(pipeline)@.probes == chain_probes(
            final(pipeline)@.elements.len() as int,
        ),
{
    let count = pipeline.len();
    proof {
        if count >= 2 {
            lemma_end_probes_of_chain(pipeline@.elements);
        }
    }
    if count == 0 {
        assert(pipeline@.probes =~= end_probes(pipeline@.elements));
        return ;
    }
    let ghost before = pipeline@;
    let ghost names = element_names(before.elements);
    let first = pipeline.element(0).name.clone();
    let last = pipeline.element(count - 1).name.clone();
    proof {
        assert(names[0] == first@);
        assert(names[count - 1] == last@);
        lemma_position_is(names, first@, 0);
        lemma_position_from(names, last@, 0);
        let found = position_of(names, last@);
        if found < count - 1 {
            assert(before.elements[found].name == before.elements[count - 1].name);
        }
    }
    pipeline.add_probe(first.as_str(), PadDirection::Src, "src");
    pipeline.add_probe(last.as_str(), PadDirection::Sink, "sink");
    assert(pipeline@.probes =~= end_probes(before.elements));
}

/// Assembles a pipeline from a plan, with the element types of `context`,
/// and attaches the probes at its ends where `with_probes` asks for them.
pub fn build_pipeline(context: &Context, plan: &Plan, with_probes: bool) -> (outcome: Result<
    Pipeline,
    PipelineError,
>)
    ensures
        outcome_model(outcome) == pipeline_outcome(context@, plan@, with_probes),
        outcome is Ok ==> outcome->Ok_0.well_formed(),
        outcome is Ok && with_probes && outcome->Ok_0@.elements.len() >= 2
            ==> outcome->Ok_0@.probes == chain_probes(outcome->Ok_0@.elements.len() as int),
{
    let mut pipeline = match assemble(context, plan) {
        Ok(pipeline) => pipeline,
        Err(error) => {
            return Err(error);
        },
    };
    if with_probes {
        attach_end_probes(&mut pipeline);
    }
    Ok(pipeline)
}

/// A pipeline that was assembled from a plan has no probes yet.
pub proof fn lemma_built_has_no_probes(types: Seq<ElementTypeModel>, plan: PlanModel)
    requires
        plan_outcome(types, plan) is Ok,
    ensures
        plan_outcome(types, plan)->Ok_0.probes == Seq::<ProbeModel>::empty(),
        model_well_formed(plan_outcome(types, plan)->Ok_0),
{
    match plan {
        PlanModel::Elements(descriptors) => {
            lemma_built_is_well_formed(types, descriptors);
        },
        PlanModel::Description(text) => {
            lemma_built_is_well_formed(types, parse_outcome(types, text)->Ok_0);
        },
    }
}

/// Models of the descriptors of the test pipeline: the source `test_src`
/// that shows a ball, the filter `capsfilter0` that admits raw video of 800
/// by 800 pixels at 60 frames a second, and the sink `test_sink`.
pub open spec fn test_descriptor_models() -> Seq<DescriptorModel> {
    seq![
        DescriptorModel {
            factory: "videotestsrc"@,
            name: "test_src"@,
            properties: seq![
                PropertyModel { name: "pattern"@, value: PropertyValueModel::Text("ball"@) },
            ],
        },
        DescriptorModel {
            factory: "capsfilter"@,
            name: "capsfilter0"@,
            properties: seq![
                PropertyModel {
                    name: "caps"@,
                    value: PropertyValueModel::Caps(video_caps_model(800, 800, 60, 1)),
                },
            ],
        },
        DescriptorModel { factory: "autovideosink"@, name: "test_sink"@, properties: Seq::empty() },
    ]
}

/// The descriptors of the test pipeline.
pub fn test_descriptors() -> (descriptors: Vec<ElementDescriptor>)
    ensures
        descriptor_models(descriptors@) == test_descriptor_models(),
{
    let source = ElementDescriptor::new("videotestsrc", "test_src").property(
        "pattern",
        PropertyValue::Text(String::from_str("ball")),
    );
    let filter = ElementDescriptor::new("capsfilter", "capsfilter0").property(
        "caps",
        PropertyValue::Caps(video_caps(800, 800, 60, 1)),
    );
    let sink = ElementDescriptor::new("autovideosink", "test_sink");
    let mut descriptors: Vec<ElementDescriptor> = Vec::new();
    descriptors.push(source);
    descriptors.push(filter);
    descriptors.push(sink);
    proof {
        let models = descriptor_models(descriptors@);
        let expected = test_descriptor_models();
        assert(models[0].properties =~= expected[0].properties);
        assert(models[1].properties =~= expected[1].properties);
        assert(models[2].properties =~= expected[2].properties);
        assert(models =~= expected);
    }
    descriptors
}

/// The plan of the test pipeline.
pub fn test_plan() -> (plan: Plan)
    ensures
        plan@ == PlanModel::Elements(test_descriptor_models()),
{
    Plan::Elements(test_descriptors())
}

} // verus!
