//! The failures that assembling or running a pipeline can end in, and the
//! text that reports each of them.

use vstd::prelude::*;
use crate::text::texts;

verus! {

/// A failure while a pipeline is assembled or run.
#[derive(Debug, PartialEq, Eq)]
pub enum PipelineError {
    /// No element type of this name is available.
    ElementNotFound(String),
    /// An element of this instance name is in the pipeline already.
    DuplicateName(String),
    /// Two adjacent elements, given by their instance names, share no data
    /// format, or lack the pad that the link needs.
    LinkError { upstream: String, downstream: String },
    /// A textual description is malformed, or names element types that are
    /// not available: those are listed, each once.
    ParseError { missing_elements: Vec<String> },
    /// The pipeline refused to change its state.
    StateTransitionError,
    /// An element reported a failure while the pipeline was running.
    BusError { source: Option<String>, message: String, debug: Option<String> },
}

/// Mathematical model of a [`PipelineError`].
pub enum ErrorModel {
    ElementNotFound(Seq<char>),
    DuplicateName(Seq<char>),
    LinkError { upstream: Seq<char>, downstream: Seq<char> },
    ParseError { missing_elements: Seq<Seq<char>> },
    StateTransitionError,
    BusError { source: Option<Seq<char>>, message: Seq<char>, debug: Option<Seq<char>> },
}

/// What an optional string holds.
pub open spec fn optional_text(value: Option<String>) -> Option<Seq<char>> {
    match value {
        Some(text) => Some(text@),
        None => None,
    }
}

impl View for PipelineError {
    type V = ErrorModel;

    open spec fn view(&self) -> ErrorModel {
        match self {
            PipelineError::ElementNotFound(name) => ErrorModel::ElementNotFound(name@),
            PipelineError::DuplicateName(name) => ErrorModel::DuplicateName(name@),
            PipelineError::LinkError { upstream, downstream } => ErrorModel::LinkError {
                upstream: upstream@,
                downstream: downstream@,
            },
            PipelineError::ParseError { missing_elements } => ErrorModel::ParseError {
                missing_elements: texts(missing_elements@),
            },
            PipelineError::StateTransitionError => ErrorModel::StateTransitionError,
            PipelineError::BusError { source, message, debug } => ErrorModel::BusError {
                source: optional_text(*source),
                message: message@,
                debug: optional_text(*debug),
            },
        }
    }
}

/// The text that the standard library's `Debug` formatting gives for an
/// optional string: `None`, or `Some(..)` round the quoted and escaped text.
pub uninterp spec fn debug_rendering(value: Option<Seq<char>>) -> Seq<char>;

/// Formats an optional string with the standard library's `{:?}`. The
/// contract only gives the result its name: the escaping rules of `Debug`
/// are not restated here.
#[verifier::external_body]
pub(crate) fn debug_text(value: &Option<String>) -> (text: String)
    ensures
        text@ == debug_rendering(optional_text(*value)),
{
    format!("{:?}", value)
}

/// The first `count` names of a list, separated by a comma and a space.
pub open spec fn joined(names: Seq<Seq<char>>, count: int) -> Seq<char>
    decreases count,
{
    if count <= 0 {
        Seq::empty()
    } else if count == 1 {
        names[0]
    } else {
        joined(names, count - 1) + ", "@ + names[count - 1]
    }
}

/// The line that reports a failure on the bus, given the source and the
/// debug detail as already rendered text.
pub open spec fn bus_error_line(source: Seq<char>, message: Seq<char>, debug: Seq<char>) -> Seq<
    char,
> {
    "Error from "@ + source + ": "@ + message + " ("@ + debug + ")"@
}

/// The text that reports a failure.
pub open spec fn error_text(error: ErrorModel) -> Seq<char> {
    match error {
        ErrorModel::ElementNotFound(name) => "element type not found: "@ + name,
        ErrorModel::DuplicateName(name) => "element name already in use: "@ + name,
        ErrorModel::LinkError { upstream, downstream } => "cannot link "@ + upstream + " to "@
            + downstream,
        ErrorModel::ParseError { missing_elements } => if missing_elements.len() == 0 {
            "malformed pipeline description"@
        } else {
            "missing elements: "@ + joined(missing_elements, missing_elements.len() as int)
        },
        ErrorModel::StateTransitionError => "state change rejected"@,
        ErrorModel::BusError { source, message, debug } => bus_error_line(
            debug_rendering(source),
            message,
            debug_rendering(debug),
        ),
    }
}

/// The names of a list, separated by a comma and a space.
pub fn join_names(names: &Vec<String>) -> (text: String)
    ensures
        text@ == joined(texts(names@), names@.len() as int),
{
    let mut text = String::new();
    let mut i: usize = 0;
    while i < names.len()
        invariant
            0 <= i <= names.len(),
            text@ == joined(texts(names@), i as int),
        decreases names.len() - i,
    {
        if i > 0 {
            text.append(", ");
        }
        text.append(names[i].as_str());
        assert(texts(names@)[i as int] == names@[i as int]@);
        assert(text@ =~= joined(texts(names@), i + 1));
        i += 1;
    }
    text
}

/// The line that reports a failure on the bus: where it came from, what the
/// element said, and the debug detail. `source` and `debug` are taken as
/// already rendered.
pub fn format_bus_error(source: &str, message: &str, debug: &str) -> (line: String)
    ensures
        line@ == bus_error_line(source@, message@, debug@),
{
    let mut line = String::from_str("Error from ");
    line.append(source);
    line.append(": ");
    line.append(message);
    line.append(" (");
    line.append(debug);
    line.append(")");
    line
}

impl PipelineError {
    /// The text that reports this failure.
    pub fn message(&self) -> (text: String)
        ensures
            text@ == error_text(self@),
    {
        match self {
            PipelineError::ElementNotFound(name) => {
                let mut text = String::from_str("element type not found: ");
                text.append(name.as_str());
                text
            },
            PipelineError::DuplicateName(name) => {
                let mut text = String::from_str("element name already in use: ");
                text.append(name.as_str());
                text
            },
            PipelineError::LinkError { upstream, downstream } => {
                let mut text = String::from_str("cannot link ");
                text.append(upstream.as_str());
                text.append(" to ");
                text.append(downstream.as_str());
                text
            },
            PipelineError::ParseError { missing_elements } => {
                if missing_elements.len() == 0 {
                    String::from_str("malformed pipeline description")
                } else {
                    let mut text = String::from_str("missing elements: ");
                    let names = join_names(missing_elements);
                    text.append(names.as_str());
                    text
                }
            },
            PipelineError::StateTransitionError => String::from_str("state change rejected"),
            PipelineError::BusError { source, message, debug } => {
                let source_text = debug_text(source);
                let debug_detail = debug_text(debug);
                format_bus_error(source_text.as_str(), message.as_str(), debug_detail.as_str())
            },
        }
    }
}

/// What an optional failure holds.
pub open spec fn optional_error(value: Option<PipelineError>) -> Option<ErrorModel> {
    match value {
        Some(error) => Some(error@),
        None => None,
    }
}

/// A copy of an optional string.
pub fn duplicate_optional(value: &Option<String>) -> (copy: Option<String>)
    ensures
        optional_text(copy) == optional_text(*value),
{
    match value {
        Some(text) => Some(text.clone()),
        None => None,
    }
}

/// The lines that report the element types that a description names and
/// that are not available: a heading, then one line for each type.
pub open spec fn missing_report(missing: Seq<Seq<char>>) -> Seq<Seq<char>> {
    seq!["Missing element(s):"@] + Seq::new(missing.len(), |k: int| "  - "@ + missing[k])
}

/// What is printed of a failure, and whether the process is to end with a
/// status other than zero. A description that names types that are not
/// available has them listed, and ends the process so; any other failure
/// is printed in one line, and the process ends normally.
pub fn failure_report(error: &PipelineError) -> (report: (Vec<String>, bool))
    ensures
        report.1 == (error@ is ParseError && error@->missing_elements.len() > 0),
        report.1 ==> texts(report.0@) == missing_report(error@->missing_elements),
        !report.1 ==> texts(report.0@) == seq!["Error: "@ + error_text(error@)],
{
    let mut lines: Vec<String> = Vec::new();
    match error {
        PipelineError::ParseError { missing_elements } => {
            if missing_elements.len() > 0 {
                let ghost missing = texts(missing_elements@);
                lines.push(String::from_str("Missing element(s):"));
                let mut i: usize = 0;
                assert(texts(lines@) =~= seq!["Missing element(s):"@] + Seq::new(
                    0,
                    |k: int| "  - "@ + missing[k],
                ));
                while i < missing_elements.len()
                    invariant
                        0 <= i <= missing_elements.len(),
                        missing == texts(missing_elements@),
                        texts(lines@) == seq!["Missing element(s):"@] + Seq::new(
                            i as nat,
                            |k: int| "  - "@ + missing[k],
                        ),
                    decreases missing_elements.len() - i,
                {
                    let mut line = String::from_str("  - ");
                    line.append(missing_elements[i].as_str());
                    let ghost before = texts(lines@);
                    lines.push(line);
                    assert(missing[i as int] == missing_elements@[i as int]@);
                    assert(texts(lines@) =~= before.push("  - "@ + missing[i as int]));
                    assert(texts(lines@) =~= seq!["Missing element(s):"@] + Seq::new(
                        (i + 1) as nat,
                        |k: int| "  - "@ + missing[k],
                    ));
                    i += 1;
                }
                return (lines, true);
            }
        },
        _ => {},
    }
    let mut line = String::from_str("Error: ");
    let text = error.message();
    line.append(text.as_str());
    lines.push(line);
    assert(texts(lines@) =~= seq!["Error: "@ + error_text(error@)]);
    (lines, false)
}

} // verus!
