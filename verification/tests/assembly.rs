use pipeline_runner::caps::{video_caps, Caps, Structure};
use pipeline_runner::element::{
    duplicate_properties, kind_from_pads, kind_has_pad, Element, ElementDescriptor, PadDirection,
    Property, PropertyValue,
};
use pipeline_runner::error::PipelineError;
use pipeline_runner::example::{build_pipeline, test_descriptors, test_plan, Plan};
use pipeline_runner::pipeline::{build, PipelineState};
use pipeline_runner::registry::{Context, ElementKind, ElementType};

fn element_type(name: &str, kind: ElementKind, caps: Caps) -> ElementType {
    ElementType { name: String::from(name), kind, caps }
}

fn audio_caps() -> Caps {
    Caps::from_structure(Structure::new("audio/x-raw"))
}

#[test]
fn new_context_is_empty() {
    let context = Context::new();
    assert_eq!(context.len(), 0);
    assert!(!context.knows("videotestsrc"));
    assert!(context.find("videotestsrc").is_none());
}

#[test]
fn standard_context_holds_the_three_types() {
    let context = Context::standard();
    assert_eq!(context.len(), 3);
    assert_eq!(context.find("videotestsrc").unwrap().kind, ElementKind::Source);
    assert_eq!(context.find("capsfilter").unwrap().kind, ElementKind::Filter);
    assert_eq!(context.find("autovideosink").unwrap().kind, ElementKind::Sink);
    assert_eq!(context.find("autovideosink").unwrap().caps, Caps::Any);
    assert!(context.knows("capsfilter"));
    assert!(!context.knows("capsfilter0"));
    assert!(!context.knows(""));
}

#[test]
fn registering_a_name_twice_leaves_the_context_as_it_was() {
    let mut context = Context::new();
    assert!(context.register(element_type("src", ElementKind::Source, Caps::new_any())));
    assert!(!context.register(element_type("src", ElementKind::Sink, Caps::new_empty())));
    assert_eq!(context.len(), 1);
    assert_eq!(context.find("src").unwrap().kind, ElementKind::Source);
    assert!(context.register(element_type("sink", ElementKind::Sink, Caps::new_any())));
    assert_eq!(context.len(), 2);
}

#[test]
fn pads_follow_from_the_kind() {
    assert!(kind_has_pad(ElementKind::Source, PadDirection::Src));
    assert!(!kind_has_pad(ElementKind::Source, PadDirection::Sink));
    assert!(kind_has_pad(ElementKind::Filter, PadDirection::Src));
    assert!(kind_has_pad(ElementKind::Filter, PadDirection::Sink));
    assert!(!kind_has_pad(ElementKind::Sink, PadDirection::Src));
    assert!(kind_has_pad(ElementKind::Sink, PadDirection::Sink));
}

#[test]
fn building_two_compatible_elements_succeeds() {
    let context = Context::standard();
    let descriptors = vec![
        ElementDescriptor::new("videotestsrc", "producer"),
        ElementDescriptor::new("autovideosink", "consumer"),
    ];
    let pipeline = build(&context, &descriptors).unwrap();
    assert_eq!(pipeline.len(), 2);
    assert_eq!(pipeline.element(0).name, "producer");
    assert_eq!(pipeline.element(0).factory, "videotestsrc");
    assert_eq!(pipeline.element(0).kind, ElementKind::Source);
    assert_eq!(pipeline.element(1).name, "consumer");
    assert_eq!(pipeline.element(1).factory, "autovideosink");
    assert_eq!(pipeline.element(1).kind, ElementKind::Sink);
    assert!(pipeline.element(0).can_link(pipeline.element(1)));
    assert_eq!(pipeline.state(), PipelineState::Idle);
    assert_eq!(pipeline.probe_count(), 0);
    assert!(pipeline.is_complete());
    assert_eq!(pipeline.position("producer"), 0);
    assert_eq!(pipeline.position("consumer"), 1);
    assert_eq!(pipeline.position("nobody"), 2);
}

#[test]
fn building_with_an_unknown_type_fails_with_element_not_found() {
    let context = Context::standard();
    let descriptors = vec![
        ElementDescriptor::new("videotestsrc", "a"),
        ElementDescriptor::new("nosuchelement", "b"),
        ElementDescriptor::new("neither", "c"),
    ];
    assert_eq!(
        build(&context, &descriptors).unwrap_err(),
        PipelineError::ElementNotFound(String::from("nosuchelement"))
    );
}

#[test]
fn an_unknown_type_is_reported_before_any_other_failure() {
    let context = Context::standard();
    let descriptors = vec![
        ElementDescriptor::new("autovideosink", "same"),
        ElementDescriptor::new("videotestsrc", "same"),
        ElementDescriptor::new("nosuchelement", "same"),
    ];
    assert_eq!(
        build(&context, &descriptors).unwrap_err(),
        PipelineError::ElementNotFound(String::from("nosuchelement"))
    );
}

#[test]
fn building_with_a_name_twice_fails_with_duplicate_name() {
    let context = Context::standard();
    let descriptors = vec![
        ElementDescriptor::new("videotestsrc", "x"),
        ElementDescriptor::new("capsfilter", "y"),
        ElementDescriptor::new("autovideosink", "x"),
    ];
    assert_eq!(
        build(&context, &descriptors).unwrap_err(),
        PipelineError::DuplicateName(String::from("x"))
    );
}

#[test]
fn building_sink_before_source_fails_with_link_error() {
    let context = Context::standard();
    let descriptors = vec![
        ElementDescriptor::new("autovideosink", "consumer"),
        ElementDescriptor::new("videotestsrc", "producer"),
    ];
    assert_eq!(
        build(&context, &descriptors).unwrap_err(),
        PipelineError::LinkError {
            upstream: String::from("consumer"),
            downstream: String::from("producer"),
        }
    );
}

#[test]
fn building_elements_without_a_shared_format_fails_with_link_error() {
    let mut context = Context::new();
    context.register(element_type("videosrc", ElementKind::Source, video_caps(800, 800, 60, 1)));
    context.register(element_type("pass", ElementKind::Filter, Caps::new_any()));
    context.register(element_type("audiosink", ElementKind::Sink, audio_caps()));
    let descriptors = vec![
        ElementDescriptor::new("videosrc", "a"),
        ElementDescriptor::new("pass", "b"),
        ElementDescriptor::new("audiosink", "c"),
    ];
    assert!(build(&context, &descriptors).is_ok());
    let descriptors = vec![
        ElementDescriptor::new("videosrc", "a"),
        ElementDescriptor::new("audiosink", "c"),
    ];
    assert_eq!(
        build(&context, &descriptors).unwrap_err(),
        PipelineError::LinkError { upstream: String::from("a"), downstream: String::from("c") }
    );
}

#[test]
fn a_filter_takes_its_format_from_its_caps_property() {
    let mut context = Context::new();
    context.register(element_type("videosrc", ElementKind::Source, video_caps(640, 480, 30, 1)));
    context.register(element_type("capsfilter", ElementKind::Filter, Caps::new_any()));
    context.register(element_type("sink", ElementKind::Sink, Caps::new_any()));
    let matching = vec![
        ElementDescriptor::new("videosrc", "a"),
        ElementDescriptor::new("capsfilter", "f")
            .property("caps", PropertyValue::Caps(video_caps(640, 480, 30, 1))),
        ElementDescriptor::new("sink", "z"),
    ];
    let pipeline = build(&context, &matching).unwrap();
    assert_eq!(pipeline.element(1).caps, video_caps(640, 480, 30, 1));
    assert_eq!(pipeline.element(2).caps, Caps::Any);
    let other = vec![
        ElementDescriptor::new("videosrc", "a"),
        ElementDescriptor::new("capsfilter", "f")
            .property("caps", PropertyValue::Text(String::from("ignored")))
            .property("caps", PropertyValue::Caps(video_caps(800, 800, 60, 1)))
            .property("caps", PropertyValue::Caps(video_caps(640, 480, 30, 1))),
        ElementDescriptor::new("sink", "z"),
    ];
    assert_eq!(
        build(&context, &other).unwrap_err(),
        PipelineError::LinkError { upstream: String::from("a"), downstream: String::from("f") }
    );
}

#[test]
fn only_a_filter_reads_the_caps_property() {
    let source = element_type("videosrc", ElementKind::Source, Caps::new_any());
    let descriptor = ElementDescriptor::new("videosrc", "a")
        .property("caps", PropertyValue::Caps(video_caps(1, 1, 1, 1)));
    let element = Element::new(&source, &descriptor);
    assert_eq!(element.caps, Caps::Any);
    assert_eq!(element.properties, descriptor.properties);
    assert!(element.has_pad(PadDirection::Src));
    assert!(!element.has_pad(PadDirection::Sink));
}

#[test]
fn building_nothing_gives_an_empty_pipeline_that_cannot_run() {
    let context = Context::standard();
    let mut pipeline = build(&context, &Vec::new()).unwrap();
    assert_eq!(pipeline.len(), 0);
    assert!(!pipeline.is_complete());
    assert_eq!(pipeline.start().unwrap_err(), PipelineError::StateTransitionError);
    assert_eq!(pipeline.state(), PipelineState::Idle);
}

#[test]
fn a_single_element_cannot_run() {
    let context = Context::standard();
    let mut pipeline =
        build(&context, &vec![ElementDescriptor::new("videotestsrc", "a")]).unwrap();
    assert!(!pipeline.is_complete());
    assert_eq!(pipeline.start().unwrap_err(), PipelineError::StateTransitionError);
}

#[test]
fn a_chain_that_ends_in_a_filter_cannot_run() {
    let context = Context::standard();
    let descriptors = vec![
        ElementDescriptor::new("videotestsrc", "a"),
        ElementDescriptor::new("capsfilter", "b"),
    ];
    let mut pipeline = build(&context, &descriptors).unwrap();
    assert!(!pipeline.is_complete());
    assert_eq!(pipeline.start().unwrap_err(), PipelineError::StateTransitionError);
    assert_eq!(pipeline.state(), PipelineState::Idle);
}

#[test]
fn start_and_stop_change_the_state_only() {
    let context = Context::standard();
    let mut pipeline = build_pipeline(&context, &test_plan(), true).unwrap();
    assert_eq!(pipeline.start(), Ok(()));
    assert_eq!(pipeline.state(), PipelineState::Playing);
    assert_eq!(pipeline.len(), 3);
    assert_eq!(pipeline.probe_count(), 2);
    assert_eq!(pipeline.start(), Ok(()));
    assert_eq!(pipeline.state(), PipelineState::Playing);
    pipeline.stop();
    assert_eq!(pipeline.state(), PipelineState::Idle);
    pipeline.stop();
    assert_eq!(pipeline.state(), PipelineState::Idle);
    assert_eq!(pipeline.len(), 3);
}

#[test]
fn the_test_pipeline_has_three_elements_and_two_probes() {
    let context = Context::standard();
    let pipeline = build_pipeline(&context, &test_plan(), true).unwrap();
    assert_eq!(pipeline.len(), 3);
    assert_eq!(pipeline.element(0).name, "test_src");
    assert_eq!(pipeline.element(0).factory, "videotestsrc");
    assert_eq!(
        pipeline.element(0).properties,
        vec![Property {
            name: String::from("pattern"),
            value: PropertyValue::Text(String::from("ball")),
        }]
    );
    assert_eq!(pipeline.element(1).name, "capsfilter0");
    assert_eq!(pipeline.element(1).caps, video_caps(800, 800, 60, 1));
    assert_eq!(pipeline.element(2).name, "test_sink");
    assert_eq!(pipeline.probe_count(), 2);
    assert_eq!(pipeline.probe(0).element, 0);
    assert_eq!(pipeline.probe(0).direction, PadDirection::Src);
    assert_eq!(pipeline.probe(0).label, "src");
    assert_eq!(pipeline.probe(1).element, 2);
    assert_eq!(pipeline.probe(1).direction, PadDirection::Sink);
    assert_eq!(pipeline.probe(1).label, "sink");
    assert_eq!(pipeline.state(), PipelineState::Idle);
}

#[test]
fn the_test_pipeline_needs_its_types() {
    let context = Context::new();
    assert_eq!(
        build_pipeline(&context, &test_plan(), true).unwrap_err(),
        PipelineError::ElementNotFound(String::from("videotestsrc"))
    );
    let mut context = Context::new();
    context.register(element_type("videotestsrc", ElementKind::Source, Caps::new_any()));
    context.register(element_type("autovideosink", ElementKind::Sink, Caps::new_any()));
    assert_eq!(
        build_pipeline(&context, &test_plan(), true).unwrap_err(),
        PipelineError::ElementNotFound(String::from("capsfilter"))
    );
}

#[test]
fn the_test_pipeline_fails_to_link_a_source_of_another_format() {
    let mut context = Context::new();
    context.register(element_type("videotestsrc", ElementKind::Source, audio_caps()));
    context.register(element_type("capsfilter", ElementKind::Filter, Caps::new_any()));
    context.register(element_type("autovideosink", ElementKind::Sink, Caps::new_any()));
    assert_eq!(
        build_pipeline(&context, &test_plan(), true).unwrap_err(),
        PipelineError::LinkError {
            upstream: String::from("test_src"),
            downstream: String::from("capsfilter0"),
        }
    );
}

#[test]
fn the_kind_follows_from_the_pads() {
    assert_eq!(kind_from_pads(true, false), ElementKind::Source);
    assert_eq!(kind_from_pads(false, true), ElementKind::Sink);
    assert_eq!(kind_from_pads(true, true), ElementKind::Filter);
    assert_eq!(kind_from_pads(false, false), ElementKind::Filter);
}

#[test]
fn a_plan_without_probes_gives_the_bare_pipeline() {
    let context = Context::standard();
    let pipeline = build_pipeline(&context, &test_plan(), false).unwrap();
    assert_eq!(pipeline.len(), 3);
    assert_eq!(pipeline.probe_count(), 0);
}

#[test]
fn a_description_is_a_plan_too() {
    let context = Context::standard();
    let plan = Plan::Description(String::from("videotestsrc name=a ! autovideosink name=z"));
    let pipeline = build_pipeline(&context, &plan, true).unwrap();
    assert_eq!(pipeline.len(), 2);
    assert_eq!(pipeline.element(0).name, "a");
    assert_eq!(pipeline.element(1).name, "z");
    assert_eq!(pipeline.probe_count(), 2);
    assert_eq!(pipeline.probe(0).element, 0);
    assert_eq!(pipeline.probe(0).label, "src");
    assert_eq!(pipeline.probe(1).element, 1);
    assert_eq!(pipeline.probe(1).direction, PadDirection::Sink);
    assert_eq!(pipeline.probe(1).label, "sink");
}

#[test]
fn a_description_with_a_missing_type_fails_with_parse_error() {
    let context = Context::standard();
    let plan = Plan::Description(String::from("videotestsrc ! nosuchelement ! nosuchelement"));
    for with_probes in [false, true] {
        assert_eq!(
            build_pipeline(&context, &plan, with_probes).unwrap_err(),
            PipelineError::ParseError { missing_elements: vec![String::from("nosuchelement")] }
        );
    }
}

#[test]
fn a_malformed_description_with_a_missing_type_lists_it_once() {
    let context = Context::standard();
    let plan = Plan::Description(String::from("nosuchelement ball ! ! nosuchelement"));
    assert_eq!(
        build_pipeline(&context, &plan, true).unwrap_err(),
        PipelineError::ParseError { missing_elements: vec![String::from("nosuchelement")] }
    );
}

#[test]
fn a_plan_of_elements_fails_as_assembling_them_fails() {
    let context = Context::standard();
    let plan = Plan::Elements(vec![ElementDescriptor::new("nosuchelement", "a")]);
    assert_eq!(
        build_pipeline(&context, &plan, true).unwrap_err(),
        PipelineError::ElementNotFound(String::from("nosuchelement"))
    );
}

#[test]
fn probes_at_the_ends_need_their_pads() {
    let context = Context::standard();
    let empty = build_pipeline(&context, &Plan::Elements(Vec::new()), true).unwrap();
    assert_eq!(empty.probe_count(), 0);
    let lone_source = Plan::Elements(vec![ElementDescriptor::new("videotestsrc", "a")]);
    let pipeline = build_pipeline(&context, &lone_source, true).unwrap();
    assert_eq!(pipeline.probe_count(), 1);
    assert_eq!(pipeline.probe(0).direction, PadDirection::Src);
    assert_eq!(pipeline.probe(0).label, "src");
    let lone_filter = Plan::Elements(vec![ElementDescriptor::new("capsfilter", "f")]);
    let pipeline = build_pipeline(&context, &lone_filter, true).unwrap();
    assert_eq!(pipeline.probe_count(), 2);
    assert_eq!(pipeline.probe(0).element, 0);
    assert_eq!(pipeline.probe(1).element, 0);
    assert_eq!(pipeline.probe(1).direction, PadDirection::Sink);
}

#[test]
fn test_descriptors_are_source_filter_sink() {
    let descriptors = test_descriptors();
    assert_eq!(descriptors.len(), 3);
    assert_eq!(descriptors[0].factory, "videotestsrc");
    assert_eq!(descriptors[1].factory, "capsfilter");
    assert_eq!(descriptors[2].factory, "autovideosink");
    assert_eq!(
        descriptors[1].properties,
        vec![Property {
            name: String::from("caps"),
            value: PropertyValue::Caps(video_caps(800, 800, 60, 1)),
        }]
    );
    assert_eq!(descriptors[2].properties, Vec::new());
}

#[test]
fn probes_attach_to_pads_that_exist() {
    let context = Context::standard();
    let descriptors = vec![
        ElementDescriptor::new("videotestsrc", "a"),
        ElementDescriptor::new("capsfilter", "b"),
        ElementDescriptor::new("autovideosink", "c"),
    ];
    let mut pipeline = build(&context, &descriptors).unwrap();
    assert_eq!(pipeline.add_probe("a", PadDirection::Sink, "x"), None);
    assert_eq!(pipeline.add_probe("c", PadDirection::Src, "x"), None);
    assert_eq!(pipeline.add_probe("nobody", PadDirection::Src, "x"), None);
    assert_eq!(pipeline.probe_count(), 0);
    assert_eq!(pipeline.add_probe("b", PadDirection::Sink, "in"), Some(0));
    assert_eq!(pipeline.add_probe("b", PadDirection::Src, "out"), Some(1));
    assert_eq!(pipeline.add_probe("a", PadDirection::Src, "first"), Some(2));
    assert_eq!(pipeline.probe_count(), 3);
    assert_eq!(pipeline.probe(0).element, 1);
    assert_eq!(pipeline.probe(0).label, "in");
    assert_eq!(pipeline.probe(2).element, 0);
    assert_eq!(pipeline.len(), 3);
}

#[test]
fn duplicate_properties_copies_each() {
    let properties = vec![
        Property { name: String::from("a"), value: PropertyValue::Number(-3) },
        Property { name: String::from("b"), value: PropertyValue::Caps(Caps::new_empty()) },
    ];
    assert_eq!(duplicate_properties(&properties), properties);
    assert_eq!(properties[0].duplicate(), properties[0]);
    assert_eq!(properties[1].value.duplicate(), PropertyValue::Caps(Caps::Structures(Vec::new())));
}
