use pipeline_runner::caps::{video_caps, Caps};
use pipeline_runner::element::{ElementDescriptor, PadDirection, PropertyValue};
use pipeline_runner::error::PipelineError;
use pipeline_runner::example::{build_pipeline, test_plan};
use pipeline_runner::pipeline::{build, Pipeline, PipelineState, Probe};
use pipeline_runner::registry::Context;
use pipeline_runner::runner::{
    after_idle_request, after_play_request, append_lines, main_loop, observe, react, state_text,
    step, BusEvent, Directive, ElementState, ProbeData, ProbeReturn, Reaction, RunReport, Subject,
};

fn test_pipeline() -> Pipeline {
    build_pipeline(&Context::standard(), &test_plan(), true).unwrap()
}

fn pipeline_ending_in_filter() -> Pipeline {
    let descriptors = vec![
        ElementDescriptor::new("videotestsrc", "a"),
        ElementDescriptor::new("capsfilter", "f")
            .property("caps", PropertyValue::Caps(video_caps(800, 800, 60, 1))),
        ElementDescriptor::new("capsfilter", "g")
            .property("caps", PropertyValue::Caps(video_caps(800, 800, 60, 1))),
    ];
    build(&Context::standard(), &descriptors).unwrap()
}

fn stale_report() -> RunReport {
    RunReport { consumed: 77, output: vec![String::from("stale")] }
}

fn run(
    pipeline: &mut Pipeline,
    events: &Vec<BusEvent>,
    negotiated: &Caps,
    inspect: bool,
) -> (Result<(), PipelineError>, RunReport) {
    let mut report = stale_report();
    let outcome = main_loop(pipeline, events, negotiated, inspect, &mut report);
    (outcome, report)
}

fn failure_event() -> BusEvent {
    BusEvent::Error {
        source: Some(String::from("/pipeline0/test_src")),
        message: String::from("Internal data stream error."),
        debug: Some(String::from("reason not-negotiated (-4)")),
    }
}

fn failure() -> PipelineError {
    PipelineError::BusError {
        source: Some(String::from("/pipeline0/test_src")),
        message: String::from("Internal data stream error."),
        debug: Some(String::from("reason not-negotiated (-4)")),
    }
}

fn failure_line() -> String {
    String::from(
        "Error from Some(\"/pipeline0/test_src\"): Internal data stream error. (Some(\"reason not-negotiated (-4)\"))",
    )
}

fn pipeline_now(old: ElementState, new: ElementState) -> BusEvent {
    BusEvent::StateChanged { old, new, subject: Subject::Pipeline }
}

fn video_dump() -> Vec<String> {
    vec![
        String::from("video/x-raw"),
        String::from("width:800"),
        String::from("height:800"),
        String::from("framerate:60/1"),
    ]
}

#[test]
fn state_names() {
    assert_eq!(state_text(ElementState::VoidPending), "VoidPending");
    assert_eq!(state_text(ElementState::Null), "Null");
    assert_eq!(state_text(ElementState::Ready), "Ready");
    assert_eq!(state_text(ElementState::Paused), "Paused");
    assert_eq!(state_text(ElementState::Playing), "Playing");
}

#[test]
fn new_report_is_blank() {
    assert_eq!(RunReport::new(), RunReport { consumed: 0, output: Vec::new() });
}

#[test]
fn end_of_stream_stops_without_a_line() {
    for inspect in [false, true] {
        assert_eq!(
            react(&BusEvent::EndOfStream, inspect),
            Reaction { directive: Directive::Stop, line: None, failure: None }
        );
    }
}

#[test]
fn an_error_stops_and_is_reported() {
    for inspect in [false, true] {
        assert_eq!(
            react(&failure_event(), inspect),
            Reaction {
                directive: Directive::Stop,
                line: Some(failure_line()),
                failure: Some(failure()),
            }
        );
    }
}

#[test]
fn an_error_without_source_is_rendered_as_none() {
    let event = BusEvent::Error { source: None, message: String::from("m"), debug: None };
    let reaction = react(&event, false);
    assert_eq!(reaction.line, Some(String::from("Error from None: m (None)")));
    assert_eq!(
        reaction.failure,
        Some(PipelineError::BusError { source: None, message: String::from("m"), debug: None })
    );
}

#[test]
fn a_state_change_of_the_pipeline_is_inspected_on_request() {
    let event = pipeline_now(ElementState::Paused, ElementState::Playing);
    assert_eq!(
        react(&event, true),
        Reaction {
            directive: Directive::Inspect,
            line: Some(String::from("Pipeline state changed from Paused to Playing")),
            failure: None,
        }
    );
    assert_eq!(
        react(&event, false),
        Reaction { directive: Directive::Continue, line: None, failure: None }
    );
}

#[test]
fn a_state_change_of_an_element_is_passed_over() {
    let event = BusEvent::StateChanged {
        old: ElementState::Null,
        new: ElementState::Ready,
        subject: Subject::Element(String::from("test_src")),
    };
    for inspect in [false, true] {
        assert_eq!(
            react(&event, inspect),
            Reaction { directive: Directive::Continue, line: None, failure: None }
        );
    }
}

#[test]
fn other_events_are_passed_over() {
    assert_eq!(
        react(&BusEvent::Other, true),
        Reaction { directive: Directive::Continue, line: None, failure: None }
    );
}

#[test]
fn a_step_appends_its_lines_and_tells_how_the_run_ends() {
    let caps = video_caps(800, 800, 60, 1);
    let mut output = vec![String::from("before")];
    assert_eq!(step(&BusEvent::Other, &caps, true, &mut output), None);
    assert_eq!(output, vec![String::from("before")]);
    let change = pipeline_now(ElementState::Null, ElementState::Ready);
    assert_eq!(step(&change, &caps, false, &mut output), None);
    assert_eq!(output, vec![String::from("before")]);
    assert_eq!(step(&change, &caps, true, &mut output), None);
    let mut expected = vec![
        String::from("before"),
        String::from("Pipeline state changed from Null to Ready"),
    ];
    expected.extend(video_dump());
    assert_eq!(output, expected);
    assert_eq!(step(&BusEvent::EndOfStream, &caps, true, &mut output), Some(Ok(())));
    assert_eq!(output, expected);
    assert_eq!(step(&failure_event(), &caps, true, &mut output), Some(Err(failure())));
    expected.push(failure_line());
    assert_eq!(output, expected);
}

#[test]
fn running_to_end_of_stream_leaves_the_pipeline_idle() {
    let mut pipeline = test_pipeline();
    let events = vec![BusEvent::Other, BusEvent::Other, BusEvent::EndOfStream];
    let (outcome, report) = run(&mut pipeline, &events, &Caps::new_any(), false);
    assert_eq!(outcome, Ok(()));
    assert_eq!(report, RunReport { consumed: 3, output: Vec::new() });
    assert_eq!(pipeline.state(), PipelineState::Idle);
    assert_eq!(pipeline.len(), 3);
    assert_eq!(pipeline.probe_count(), 2);
}

#[test]
fn running_stops_at_end_of_stream() {
    let mut pipeline = test_pipeline();
    let events = vec![
        BusEvent::EndOfStream,
        failure_event(),
        pipeline_now(ElementState::Paused, ElementState::Playing),
    ];
    let (outcome, report) = run(&mut pipeline, &events, &Caps::new_any(), true);
    assert_eq!(outcome, Ok(()));
    assert_eq!(report, RunReport { consumed: 1, output: Vec::new() });
    assert_eq!(pipeline.state(), PipelineState::Idle);
}

#[test]
fn running_into_an_error_stops_after_that_event() {
    let mut pipeline = test_pipeline();
    let second = BusEvent::Error {
        source: None,
        message: String::from("later"),
        debug: None,
    };
    let events = vec![
        BusEvent::Other,
        failure_event(),
        pipeline_now(ElementState::Paused, ElementState::Playing),
        second,
        BusEvent::EndOfStream,
    ];
    let (outcome, report) = run(&mut pipeline, &events, &Caps::new_any(), true);
    assert_eq!(outcome, Err(failure()));
    assert_eq!(report, RunReport { consumed: 2, output: vec![failure_line()] });
    assert_eq!(pipeline.state(), PipelineState::Idle);
    assert_eq!(pipeline.len(), 3);
}

#[test]
fn running_into_an_error_returns_its_source_message_and_debug() {
    let mut pipeline = test_pipeline();
    let events = vec![BusEvent::Error {
        source: None,
        message: String::from("boom"),
        debug: Some(String::from("detail")),
    }];
    let (outcome, report) = run(&mut pipeline, &events, &Caps::new_any(), false);
    assert_eq!(
        outcome,
        Err(PipelineError::BusError {
            source: None,
            message: String::from("boom"),
            debug: Some(String::from("detail")),
        })
    );
    assert_eq!(report.consumed, 1);
    assert_eq!(report.output, vec![String::from("Error from None: boom (Some(\"detail\"))")]);
    assert_eq!(pipeline.state(), PipelineState::Idle);
}

#[test]
fn running_out_of_events_leaves_the_pipeline_idle() {
    let mut pipeline = test_pipeline();
    let (outcome, report) = run(&mut pipeline, &Vec::new(), &Caps::new_any(), true);
    assert_eq!(outcome, Ok(()));
    assert_eq!(report, RunReport { consumed: 0, output: Vec::new() });
    assert_eq!(pipeline.state(), PipelineState::Idle);
    let events = vec![BusEvent::Other, BusEvent::Other];
    let (outcome, report) = run(&mut pipeline, &events, &Caps::new_any(), true);
    assert_eq!(outcome, Ok(()));
    assert_eq!(report.consumed, 2);
    assert_eq!(pipeline.state(), PipelineState::Idle);
}

#[test]
fn running_with_inspection_dumps_the_caps_found_at_the_sink() {
    let mut pipeline = test_pipeline();
    let events = vec![
        pipeline_now(ElementState::Null, ElementState::Ready),
        BusEvent::StateChanged {
            old: ElementState::Ready,
            new: ElementState::Paused,
            subject: Subject::Element(String::from("test_sink")),
        },
        pipeline_now(ElementState::Paused, ElementState::Playing),
        BusEvent::EndOfStream,
    ];
    let negotiated = video_caps(800, 800, 60, 1);
    let (outcome, report) = run(&mut pipeline, &events, &negotiated, true);
    assert_eq!(outcome, Ok(()));
    assert_eq!(report.consumed, 4);
    let mut expected = vec![String::from("Pipeline state changed from Null to Ready")];
    expected.extend(video_dump());
    expected.push(String::from("Pipeline state changed from Paused to Playing"));
    expected.extend(video_dump());
    assert_eq!(report.output, expected);
    let (outcome, report) = run(&mut pipeline, &events, &negotiated, false);
    assert_eq!(outcome, Ok(()));
    assert_eq!(report, RunReport { consumed: 4, output: Vec::new() });
}

#[test]
fn inspection_of_unconstrained_and_of_missing_caps() {
    let events = vec![pipeline_now(ElementState::Null, ElementState::Ready)];
    let mut pipeline = test_pipeline();
    let (_, report) = run(&mut pipeline, &events, &Caps::new_any(), true);
    assert_eq!(
        report.output,
        vec![String::from("Pipeline state changed from Null to Ready"), String::from("ANY")]
    );
    let (_, report) = run(&mut pipeline, &events, &Caps::new_empty(), true);
    assert_eq!(
        report.output,
        vec![String::from("Pipeline state changed from Null to Ready"), String::from("EMPTY")]
    );
}

#[test]
fn a_pipeline_that_cannot_run_takes_no_event() {
    let mut pipeline = pipeline_ending_in_filter();
    let events = vec![failure_event(), BusEvent::EndOfStream];
    let (outcome, report) = run(&mut pipeline, &events, &Caps::new_any(), true);
    assert_eq!(outcome, Err(PipelineError::StateTransitionError));
    assert_eq!(report, RunReport { consumed: 0, output: Vec::new() });
    assert_eq!(pipeline.state(), PipelineState::Idle);
    assert_eq!(pipeline.len(), 3);
}

#[test]
fn append_lines_keeps_what_was_there() {
    let mut output = vec![String::from("a")];
    append_lines(&mut output, &vec![String::from("b"), String::from("c")]);
    assert_eq!(output, vec![String::from("a"), String::from("b"), String::from("c")]);
    append_lines(&mut output, &Vec::new());
    assert_eq!(output.len(), 3);
}

#[test]
fn a_probe_reports_the_size_of_a_buffer() {
    let pipeline = test_pipeline();
    let seen = observe(pipeline.probe(0), Some(ProbeData::Buffer(1920000)));
    assert_eq!(seen.line, Some(String::from("src: 1920000")));
    assert_eq!(seen.verdict, ProbeReturn::Keep);
    let seen = observe(pipeline.probe(1), Some(ProbeData::Buffer(0)));
    assert_eq!(seen.line, Some(String::from("sink: 0")));
    assert_eq!(seen.verdict, ProbeReturn::Keep);
}

#[test]
fn a_probe_passes_over_anything_but_a_buffer() {
    let probe = Probe { element: 0, direction: PadDirection::Src, label: String::from("src") };
    for data in [None, Some(ProbeData::BufferList), Some(ProbeData::Event), Some(ProbeData::Query)]
    {
        let seen = observe(&probe, data);
        assert_eq!(seen.line, None);
        assert_eq!(seen.verdict, ProbeReturn::Keep);
    }
}

#[test]
fn a_refused_play_request_fails_the_run() {
    assert_eq!(after_play_request(true), Ok(()));
    assert_eq!(after_play_request(false), Err(PipelineError::StateTransitionError));
}

#[test]
fn a_refused_idle_request_is_reported_and_not_escalated() {
    let refusal = Some(String::from("Unable to set the pipeline to the null state"));
    assert_eq!(after_idle_request(true, Ok(())), (None, Ok(())));
    assert_eq!(after_idle_request(false, Ok(())), (refusal.clone(), Ok(())));
    assert_eq!(after_idle_request(true, Err(failure())), (None, Err(failure())));
    assert_eq!(after_idle_request(false, Err(failure())), (refusal, Err(failure())));
}
