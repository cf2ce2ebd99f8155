use pipeline_runner::error::{
    duplicate_optional, failure_report, format_bus_error, join_names, PipelineError,
};

#[test]
fn message_of_element_not_found() {
    let e = PipelineError::ElementNotFound(String::from("nosuchelement"));
    assert_eq!(e.message(), "element type not found: nosuchelement");
}

#[test]
fn message_of_duplicate_name() {
    let e = PipelineError::DuplicateName(String::from("test_src"));
    assert_eq!(e.message(), "element name already in use: test_src");
}

#[test]
fn message_of_link_error() {
    let e = PipelineError::LinkError {
        upstream: String::from("test_src"),
        downstream: String::from("test_sink"),
    };
    assert_eq!(e.message(), "cannot link test_src to test_sink");
}

#[test]
fn message_of_parse_error() {
    let e = PipelineError::ParseError { missing_elements: Vec::new() };
    assert_eq!(e.message(), "malformed pipeline description");
    let e = PipelineError::ParseError { missing_elements: vec![String::from("a")] };
    assert_eq!(e.message(), "missing elements: a");
    let e = PipelineError::ParseError {
        missing_elements: vec![String::from("a"), String::from("b"), String::from("c")],
    };
    assert_eq!(e.message(), "missing elements: a, b, c");
}

#[test]
fn message_of_state_transition_error() {
    assert_eq!(PipelineError::StateTransitionError.message(), "state change rejected");
}

#[test]
fn message_of_bus_error_renders_source_and_debug() {
    let e = PipelineError::BusError {
        source: Some(String::from("/GstPipeline:pipeline0/GstVideoTestSrc:test_src")),
        message: String::from("Internal data stream error."),
        debug: Some(String::from("streaming stopped, reason not-negotiated (-4)")),
    };
    assert_eq!(
        e.message(),
        "Error from Some(\"/GstPipeline:pipeline0/GstVideoTestSrc:test_src\"): Internal data stream error. (Some(\"streaming stopped, reason not-negotiated (-4)\"))"
    );
}

#[test]
fn message_of_bus_error_without_source_or_debug() {
    let e = PipelineError::BusError {
        source: None,
        message: String::from("boom"),
        debug: None,
    };
    assert_eq!(e.message(), "Error from None: boom (None)");
}

#[test]
fn message_of_bus_error_escapes_like_debug() {
    let e = PipelineError::BusError {
        source: Some(String::from("a\"b")),
        message: String::from("m"),
        debug: Some(String::from("line\nbreak\\")),
    };
    assert_eq!(e.message(), "Error from Some(\"a\\\"b\"): m (Some(\"line\\nbreak\\\\\"))");
}

#[test]
fn format_bus_error_takes_rendered_parts() {
    assert_eq!(format_bus_error("S", "M", "D"), "Error from S: M (D)");
    assert_eq!(format_bus_error("", "", ""), "Error from :  ()");
}

#[test]
fn join_names_separates_with_comma_and_space() {
    assert_eq!(join_names(&Vec::new()), "");
    assert_eq!(join_names(&vec![String::from("x")]), "x");
    assert_eq!(join_names(&vec![String::from("x"), String::from("y")]), "x, y");
}

#[test]
fn duplicate_optional_copies() {
    assert_eq!(duplicate_optional(&None), None);
    assert_eq!(duplicate_optional(&Some(String::from("d"))), Some(String::from("d")));
}

#[test]
fn missing_types_are_listed_and_end_the_process() {
    let e = PipelineError::ParseError {
        missing_elements: vec![String::from("a"), String::from("b")],
    };
    assert_eq!(
        failure_report(&e),
        (
            vec![
                String::from("Missing element(s):"),
                String::from("  - a"),
                String::from("  - b"),
            ],
            true
        )
    );
}

#[test]
fn other_failures_are_printed_in_one_line() {
    let e = PipelineError::ParseError { missing_elements: Vec::new() };
    assert_eq!(
        failure_report(&e),
        (vec![String::from("Error: malformed pipeline description")], false)
    );
    let e = PipelineError::ElementNotFound(String::from("x"));
    assert_eq!(
        failure_report(&e),
        (vec![String::from("Error: element type not found: x")], false)
    );
    let e = PipelineError::BusError { source: None, message: String::from("m"), debug: None };
    assert_eq!(
        failure_report(&e),
        (vec![String::from("Error: Error from None: m (None)")], false)
    );
    assert_eq!(
        failure_report(&PipelineError::StateTransitionError),
        (vec![String::from("Error: state change rejected")], false)
    );
}
