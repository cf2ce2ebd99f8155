//! Running a pipeline: the events that arrive on its bus, what the loop
//! does on each of them, and what a probe reports of the data that it sees.

use vstd::prelude::*;
use crate::caps::{Caps, dump_lines};
use crate::error::{
    ErrorModel,
    PipelineError,
    bus_error_line,
    debug_rendering,
    debug_text,
    duplicate_optional,
    format_bus_error,
    optional_error,
    optional_text,
};
use crate::pipeline::{Pipeline, PipelineModel, PipelineState, Probe, complete};
use crate::text::{decimal, push_decimal, texts};

verus! {

/// Who a change of state is reported of.
#[derive(Debug, PartialEq, Eq)]
pub enum Subject {
    /// The pipeline itself.
    Pipeline,
    /// One of its elements, by name.
    Element(String),
}

/// A state of an element, as a change of state on the bus names it.
#[derive(Clone, Copy, Debug, PartialEq, Eq, Structural)]
pub enum ElementState {
    /// No state is pending.
    VoidPending,
    /// Nothing is allocated; the state before a run and after it.
    Null,
    /// Resources are allocated, nothing flows.
    Ready,
    /// Data is queued up and the clock stands still.
    Paused,
    /// Data flows and the clock runs.
    Playing,
}

/// An event on the bus of a running pipeline.
#[derive(Debug, PartialEq, Eq)]
pub enum BusEvent {
    /// The stream has ended.
    EndOfStream,
    /// An element has failed.
    Error { source: Option<String>, message: String, debug: Option<String> },
    /// The pipeline or an element has changed its state.
    StateChanged { old: ElementState, new: ElementState, subject: Subject },
    /// Anything else.
    Other,
}

/// Mathematical model of a [`Subject`].
pub enum SubjectModel {
    Pipeline,
    Element(Seq<char>),
}

/// Mathematical model of a [`BusEvent`].
pub enum EventModel {
    EndOfStream,
    Error { source: Option<Seq<char>>, message: Seq<char>, debug: Option<Seq<char>> },
    StateChanged { old: ElementState, new: ElementState, subject: SubjectModel },
    Other,
}

impl View for Subject {
    type V = SubjectModel;

    open spec fn view(&self) -> SubjectModel {
        match self {
            Subject::Pipeline => SubjectModel::Pipeline,
            Subject::Element(name) => SubjectModel::Element(name@),
        }
    }
}

impl View for BusEvent {
    type V = EventModel;

    open spec fn view(&self) -> EventModel {
        match self {
            BusEvent::EndOfStream => EventModel::EndOfStream,
            BusEvent::Error { source, message, debug } => EventModel::Error {
                source: optional_text(*source),
                message: message@,
                debug: optional_text(*debug),
            },
            BusEvent::StateChanged { old, new, subject } => EventModel::StateChanged {
                old: *old,
                new: *new,
                subject: subject@,
            },
            BusEvent::Other => EventModel::Other,
        }
    }
}

/// The models of a list of events, in order.
pub open spec fn event_models(events: Seq<BusEvent>) -> Seq<EventModel> {
    events.map_values(|e: BusEvent| e@)
}

/// What the loop is to do after an event.
#[derive(Clone, Copy, Debug, PartialEq, Eq, Structural)]
pub enum Directive {
    /// Wait for the next event.
    Continue,
    /// Dump the capability set that arrives at the sink, then wait
    /// for the next event.
    Inspect,
    /// Leave the loop and return the pipeline to the idle state.
    Stop,
}

/// The event ends the run.
pub open spec fn is_terminal(event: EventModel) -> bool {
    event is EndOfStream || event is Error
}

/// What the loop is to do after `event`. A change of the pipeline's own
/// state calls for an inspection where `inspect` asks for one.
pub open spec fn directive_of(event: EventModel, inspect: bool) -> Directive {
    match event {
        EventModel::EndOfStream => Directive::Stop,
        EventModel::Error { .. } => Directive::Stop,
        EventModel::StateChanged { subject, .. } => if inspect && subject is Pipeline {
            Directive::Inspect
        } else {
            Directive::Continue
        },
        EventModel::Other => Directive::Continue,
    }
}

/// The name that a state is printed under.
pub open spec fn state_name(state: ElementState) -> Seq<char> {
    match state {
        ElementState::VoidPending => "VoidPending"@,
        ElementState::Null => "Null"@,
        ElementState::Ready => "Ready"@,
        ElementState::Paused => "Paused"@,
        ElementState::Playing => "Playing"@,
    }
}

/// The line that reports a change of the pipeline's state.
pub open spec fn state_line(old: ElementState, new: ElementState) -> Seq<char> {
    "Pipeline state changed from "@ + state_name(old) + " to "@ + state_name(new)
}

/// The line that the loop prints on `event` itself, if any: the report of
/// a failure, or of a change of the pipeline's state that is inspected.
pub open spec fn line_of(event: EventModel, inspect: bool) -> Option<Seq<char>> {
    match event {
        EventModel::Error { source, message, debug } => Some(
            bus_error_line(debug_rendering(source), message, debug_rendering(debug)),
        ),
        EventModel::StateChanged { old, new, subject } => if inspect && subject is Pipeline {
            Some(state_line(old, new))
        } else {
            None
        },
        _ => None,
    }
}

/// The failure that `event` reports, if any.
pub open spec fn failure_of(event: EventModel) -> Option<ErrorModel> {
    match event {
        EventModel::Error { source, message, debug } => Some(
            ErrorModel::BusError { source, message, debug },
        ),
        _ => None,
    }
}

/// All the lines that the loop prints on `event`: its own line, and after
/// it the lines of the inspection where there is one.
pub open spec fn lines_of_event(event: EventModel, inspect: bool, inspection: Seq<Seq<char>>) -> Seq<
    Seq<char>,
> {
    let own = match line_of(event, inspect) {
        Some(line) => seq![line],
        None => Seq::empty(),
    };
    if directive_of(event, inspect) == Directive::Inspect {
        own + inspection
    } else {
        own
    }
}

/// Position of the first event, from `start` on, that ends the run; the
/// number of events where there is none.
pub open spec fn first_terminal_from(events: Seq<EventModel>, start: int) -> int
    decreases events.len() - start,
{
    if start >= events.len() {
        events.len() as int
    } else if is_terminal(events[start]) {
        start
    } else {
        first_terminal_from(events, start + 1)
    }
}

/// Number of events that a run takes from the bus: those up to the first
/// that ends the run, that one included; all of them where none does.
pub open spec fn consumed(events: Seq<EventModel>) -> int {
    if first_terminal_from(events, 0) < events.len() {
        first_terminal_from(events, 0) + 1
    } else {
        events.len() as int
    }
}

/// The lines that the loop prints on the first `count` events.
pub open spec fn run_output(
    events: Seq<EventModel>,
    count: int,
    inspect: bool,
    inspection: Seq<Seq<char>>,
) -> Seq<Seq<char>>
    decreases count,
{
    if count <= 0 {
        Seq::empty()
    } else {
        run_output(events, count - 1, inspect, inspection) + lines_of_event(
            events[count - 1],
            inspect,
            inspection,
        )
    }
}

/// The failure that a run ends with: the one that the event that ended the
/// run reports, if any.
pub open spec fn run_failure(events: Seq<EventModel>) -> Option<ErrorModel> {
    if first_terminal_from(events, 0) < events.len() {
        failure_of(events[first_terminal_from(events, 0)])
    } else {
        None
    }
}

/// How `event` ends the run, if it does: the end of the stream ends it
/// well, a failure ends it with that failure.
pub open spec fn end_of(event: EventModel) -> Option<Result<(), ErrorModel>> {
    match event {
        EventModel::EndOfStream => Some(Ok(())),
        EventModel::Error { source, message, debug } => Some(
            Err(ErrorModel::BusError { source, message, debug }),
        ),
        _ => None,
    }
}

/// What a run returns. A pipeline that cannot run refuses to play. Else
/// the failure that ended the run is returned, if one did; a run that the
/// end of the stream ended, or that ran out of events, returns well.
pub open spec fn run_result(pipeline: PipelineModel, events: Seq<EventModel>) -> Result<
    (),
    ErrorModel,
> {
    if !complete(pipeline) {
        Err(ErrorModel::StateTransitionError)
    } else {
        match run_failure(events) {
            Some(error) => Err(error),
            None => Ok(()),
        }
    }
}

/// What a result of a run, or of one step of it, holds.
pub open spec fn result_model(outcome: Result<(), PipelineError>) -> Result<(), ErrorModel> {
    match outcome {
        Ok(_) => Ok(()),
        Err(error) => Err(error@),
    }
}

/// What the verdict of one step holds.
pub open spec fn verdict_model(verdict: Option<Result<(), PipelineError>>) -> Option<
    Result<(), ErrorModel>,
> {
    match verdict {
        Some(outcome) => Some(result_model(outcome)),
        None => None,
    }
}

/// `first_terminal_from` points at the first event that ends the run, or
/// past the end where no event does.
pub proof fn lemma_first_terminal(events: Seq<EventModel>, start: int)
    requires
        0 <= start <= events.len(),
    ensures
        start <= first_terminal_from(events, start) <= events.len(),
        first_terminal_from(events, start) < events.len() ==> is_terminal(
            events[first_terminal_from(events, start)],
        ),
        forall|k: int|
            start <= k < first_terminal_from(events, start) ==> !is_terminal(#[trigger] events[k]),
    decreases events.len() - start,
{
    if start < events.len() && !is_terminal(events[start]) {
        lemma_first_terminal(events, start + 1);
    }
}

/// A run takes the events up to the first that ends it, and no event
/// after that one: where the event at `at` ends the run and none before it
/// does, the run takes `at + 1` events. A pipeline that can run then
/// returns well where that event is the end of the stream, and returns the
/// failure, with its source, message and debug detail, where that event
/// reports one.
pub proof fn lemma_run_stops_at(pipeline: PipelineModel, events: Seq<EventModel>, at: int)
    requires
        complete(pipeline),
        0 <= at < events.len(),
        is_terminal(events[at]),
        forall|k: int| 0 <= k < at ==> !is_terminal(#[trigger] events[k]),
    ensures
        consumed(events) == at + 1,
        run_failure(events) == failure_of(events[at]),
        Some(run_result(pipeline, events)) == end_of(events[at]),
        events[at] is EndOfStream ==> run_result(pipeline, events) is Ok,
        events[at] is Error ==> run_result(pipeline, events) == Err::<(), ErrorModel>(
            ErrorModel::BusError {
                source: events[at]->source,
                message: events[at]->message,
                debug: events[at]->debug,
            },
        ),
{
    lemma_first_terminal(events, 0);
    let first = first_terminal_from(events, 0);
    if first < at {
        assert(is_terminal(events[first]));
    }
}

/// What the loop prints on its first `count` events depends on those
/// events alone.
pub proof fn lemma_run_output_of_prefix(
    events: Seq<EventModel>,
    others: Seq<EventModel>,
    count: int,
    inspect: bool,
    inspection: Seq<Seq<char>>,
)
    requires
        0 <= count <= events.len(),
        count <= others.len(),
        forall|k: int| 0 <= k < count ==> events[k] == others[k],
    ensures
        run_output(events, count, inspect, inspection) == run_output(
            others,
            count,
            inspect,
            inspection,
        ),
    decreases count,
{
    if count > 0 {
        lemma_run_output_of_prefix(events, others, count - 1, inspect, inspection);
    }
}

/// A run that no event ends takes every event and returns well.
pub proof fn lemma_run_without_end(pipeline: PipelineModel, events: Seq<EventModel>)
    requires
        complete(pipeline),
        forall|k: int| 0 <= k < events.len() ==> !is_terminal(#[trigger] events[k]),
    ensures
        consumed(events) == events.len(),
        run_result(pipeline, events) is Ok,
{
    lemma_first_terminal(events, 0);
    let first = first_terminal_from(events, 0);
    if first < events.len() {
        assert(is_terminal(events[first]));
    }
}

/// The events after the one that ends a run are not processed: two lists
/// of events that agree up to the first event that ends the run, that one
/// included, give the same run.
pub proof fn lemma_later_events_are_ignored(
    pipeline: PipelineModel,
    events: Seq<EventModel>,
    others: Seq<EventModel>,
    inspect: bool,
    inspection: Seq<Seq<char>>,
)
    requires
        first_terminal_from(events, 0) < events.len(),
        consumed(events) <= others.len(),
        forall|k: int| 0 <= k < consumed(events) ==> events[k] == others[k],
    ensures
        consumed(others) == consumed(events),
        run_result(pipeline, others) == run_result(pipeline, events),
        run_output(others, consumed(others), inspect, inspection) == run_output(
            events,
            consumed(events),
            inspect,
            inspection,
        ),
{
    lemma_first_terminal(events, 0);
    let at = first_terminal_from(events, 0);
    assert(at < events.len());
    assert(others[at] == events[at]);
    assert forall|k: int| 0 <= k < at implies !is_terminal(#[trigger] others[k]) by {
        assert(others[k] == events[k]);
    }
    lemma_first_terminal(others, 0);
    let other_first = first_terminal_from(others, 0);
    if other_first < at {
        assert(is_terminal(others[other_first]));
    }
    lemma_run_output_of_prefix(events, others, at + 1, inspect, inspection);
}

/// What the loop does on one event.
#[derive(Debug, PartialEq, Eq)]
pub struct Reaction {
    /// What the loop is to do next.
    pub directive: Directive,
    /// The line to print, if any.
    pub line: Option<String>,
    /// The failure that the event reports, if any.
    pub failure: Option<PipelineError>,
}

/// What a run has done, whatever it returned.
#[derive(Debug, PartialEq, Eq)]
pub struct RunReport {
    /// Number of events taken from the bus.
    pub consumed: usize,
    /// The lines printed, in order.
    pub output: Vec<String>,
}

impl RunReport {
    /// The report of a run that has taken no event and printed nothing.
    pub fn new() -> (report: RunReport)
        ensures
            report.consumed == 0,
            report.output@ == Seq::<String>::empty(),
    {
        RunReport { consumed: 0, output: Vec::new() }
    }
}

/// The name that a state is printed under.
pub fn state_text(state: ElementState) -> (name: &'static str)
    ensures
        name@ == state_name(state),
{
    match state {
        ElementState::VoidPending => "VoidPending",
        ElementState::Null => "Null",
        ElementState::Ready => "Ready",
        ElementState::Paused => "Paused",
        ElementState::Playing => "Playing",
    }
}

/// Decides what the loop does on one event: whether it goes on, inspects
/// or stops, what it prints, and which failure it records.
pub fn react(event: &BusEvent, inspect: bool) -> (reaction: Reaction)
    ensures
        reaction.directive == directive_of(event@, inspect),
        optional_text(reaction.line) == line_of(event@, inspect),
        optional_error(reaction.failure) == failure_of(event@),
{
    match event {
        BusEvent::EndOfStream => Reaction { directive: Directive::Stop, line: None, failure: None },
        BusEvent::Error { source, message, debug } => {
            let source_text = debug_text(source);
            let debug_detail = debug_text(debug);
            let line = format_bus_error(
                source_text.as_str(),
                message.as_str(),
                debug_detail.as_str(),
            );
            let failure = PipelineError::BusError {
                source: duplicate_optional(source),
                message: message.clone(),
                debug: duplicate_optional(debug),
            };
            Reaction { directive: Directive::Stop, line: Some(line), failure: Some(failure) }
        },
        BusEvent::StateChanged { old, new, subject } => {
            let of_pipeline = match subject {
                Subject::Pipeline => true,
                Subject::Element(_) => false,
            };
            if inspect && of_pipeline {
                let mut line = String::from_str("Pipeline state changed from ");
                line.append(state_text(*old));
                line.append(" to ");
                line.append(state_text(*new));
                Reaction { directive: Directive::Inspect, line: Some(line), failure: None }
            } else {
                Reaction { directive: Directive::Continue, line: None, failure: None }
            }
        },
        BusEvent::Other => Reaction { directive: Directive::Continue, line: None, failure: None },
    }
}

/// Appends copies of `lines` to `output`.
pub fn append_lines(output: &mut Vec<String>, lines: &Vec<String>)
    ensures
        texts(final(output)@) == texts(old(output)@) + texts(lines@),
{
    let mut i: usize = 0;
    assert(texts(output@) =~= texts(old(output)@) + texts(lines@).subrange(0, 0));
    while i < lines.len()
        invariant
            0 <= i <= lines.len(),
            texts(output@) == texts(old(output)@) + texts(lines@).subrange(0, i as int),
        decreases lines.len() - i,
    {
        let ghost before = texts(output@);
        output.push(lines[i].clone());
        assert(texts(output@) =~= before.push(lines@[i as int]@));
        assert(texts(lines@).subrange(0, i + 1) =~= texts(lines@).subrange(0, i as int).push(
            lines@[i as int]@,
        ));
        assert(texts(output@) =~= texts(old(output)@) + texts(lines@).subrange(0, i + 1));
        i += 1;
    }
    assert(texts(lines@).subrange(0, lines@.len() as int) =~= texts(lines@));
}

/// Takes one event from the bus: appends to `output` the lines that the
/// loop prints on it, with the dump of `negotiated`, the capability set
/// found at the sink, where the event calls for an inspection, and tells
/// whether the event ends the run, and how.
pub fn step(event: &BusEvent, negotiated: &Caps, inspect: bool, output: &mut Vec<String>) -> (verdict:
    Option<Result<(), PipelineError>>)
    ensures
        texts(final(output)@) == texts(old(output)@) + lines_of_event(
            event@,
            inspect,
            dump_lines(negotiated@),
        ),
        verdict_model(verdict) == end_of(event@),
{
    let Reaction { directive, line, failure } = react(event, inspect);
    let ghost before = texts(output@);
    match line {
        Some(text) => {
            output.push(text);
            assert(texts(output@) =~= before + seq![text@]);
        },
        None => {
            assert(texts(output@) =~= before + Seq::<Seq<char>>::empty());
        },
    }
    let verdict = match directive {
        Directive::Inspect => {
            let inspection = negotiated.dump();
            append_lines(output, &inspection);
            None
        },
        Directive::Stop => match failure {
            Some(error) => Some(Err(error)),
            None => Some(Ok(())),
        },
        Directive::Continue => None,
    };
    assert(texts(output@) =~= before + lines_of_event(event@, inspect, dump_lines(negotiated@)));
    verdict
}

/// Runs a pipeline over the events that its bus delivers, in order: sets
/// it playing, takes events until one ends the run or none is left, and
/// returns the pipeline to the idle state. `negotiated` is the capability
/// set found at the sink, which an inspection dumps. The run returns the
/// failure that ended it, if one did. Whatever it returns, `report` then
/// tells how many events were taken and what was printed. A pipeline that
/// refuses to play is left as it was and no event is taken.
pub fn main_loop(
    pipeline: &mut Pipeline,
    events: &Vec<BusEvent>,
    negotiated: &Caps,
    inspect: bool,
    report: &mut RunReport,
) -> (outcome: Result<(), PipelineError>)
    ensures
        result_model(outcome) == run_result(old(pipeline)@, event_models(events@)),
        !complete(old(pipeline)@) ==> {
            &&& final(pipeline)@ == old(pipeline)@
            &&& final(report).consumed == 0
            &&& final(report).output@ == Seq::<String>::empty()
        },
        complete(old(pipeline)@) ==> {
            &&& final(pipeline)@ == (PipelineModel {
                state: PipelineState::Idle,
                ..old(pipeline)@
            })
            &&& final(report).consumed == consumed(event_models(events@))
            &&& texts(final(report).output@) == run_output(
                event_models(events@),
                consumed(event_models(events@)),
                inspect,
                dump_lines(negotiated@),
            )
        },
{
    let mut output: Vec<String> = Vec::new();
    match pipeline.start() {
        Err(error) => {
            report.consumed = 0;
            report.output = output;
            return Err(error);
        },
        Ok(()) => {},
    }
    let ghost models = event_models(events@);
    let ghost shown = dump_lines(negotiated@);
    let mut ended: Option<Result<(), PipelineError>> = None;
    let mut i: usize = 0;
    assert(texts(output@) =~= run_output(models, 0, inspect, shown));
    while i < events.len() && ended.is_none()
        invariant
            0 <= i <= events.len(),
            models == event_models(events@),
            shown == dump_lines(negotiated@),
            texts(output@) == run_output(models, i as int, inspect, shown),
            ended.is_none() ==> first_terminal_from(models, i as int) == first_terminal_from(
                models,
                0,
            ),
            ended.is_some() ==> i >= 1 && first_terminal_from(models, 0) == i - 1
                && verdict_model(ended) == end_of(models[i - 1]),
        decreases events.len() - i,
    {
        assert(models[i as int] == events@[i as int]@);
        ended = step(&events[i], negotiated, inspect, &mut output);
        i += 1;
    }
    pipeline.stop();
    report.consumed = i;
    report.output = output;
    match ended {
        Some(outcome) => outcome,
        None => Ok(()),
    }
}

/// What follows from the answer to the request to play: a pipeline that
/// accepts goes on to the loop, one that refuses fails the run.
pub fn after_play_request(accepted: bool) -> (outcome: Result<(), PipelineError>)
    ensures
        accepted ==> outcome is Ok,
        !accepted ==> outcome is Err && outcome->Err_0@ == ErrorModel::StateTransitionError,
{
    if accepted {
        Ok(())
    } else {
        Err(PipelineError::StateTransitionError)
    }
}

/// The line that reports that the pipeline refused to return to the idle
/// state.
pub open spec fn idle_refusal_line() -> Seq<char> {
    "Unable to set the pipeline to the null state"@
}

/// What follows from the answer to the request to return to the idle
/// state, after a run that ended with `ended`: a refusal is reported in a
/// line, and does not change what the run returns.
pub fn after_idle_request(accepted: bool, ended: Result<(), PipelineError>) -> (closing: (
    Option<String>,
    Result<(), PipelineError>,
))
    ensures
        result_model(closing.1) == result_model(ended),
        closing.0 is Some <==> !accepted,
        closing.0 is Some ==> closing.0->Some_0@ == idle_refusal_line(),
{
    let line = if accepted {
        None
    } else {
        Some(String::from_str("Unable to set the pipeline to the null state"))
    };
    (line, ended)
}

/// What crosses a pad when a probe is called.
#[derive(Clone, Copy, Debug, PartialEq, Eq, Structural)]
pub enum ProbeData {
    /// One buffer, with the size of its payload in bytes.
    Buffer(usize),
    /// A list of buffers.
    BufferList,
    /// An event.
    Event,
    /// A query.
    Query,
}

/// What a probe tells the pad to do with the data that it has seen.
#[derive(Clone, Copy, Debug, PartialEq, Eq, Structural)]
pub enum ProbeReturn {
    /// Hold the data back.
    Discard,
    /// Let the data pass and keep the probe.
    Keep,
    /// Let the data pass and remove the probe.
    Remove,
}

/// What a probe makes of one call.
#[derive(Debug, PartialEq, Eq)]
pub struct Observation {
    /// The line to print, if any.
    pub line: Option<String>,
    /// What the pad is to do.
    pub verdict: ProbeReturn,
}

/// The line that a probe prints of a buffer: its label, a colon and a
/// space, and the size of the payload.
pub open spec fn probe_line(label: Seq<char>, size: nat) -> Seq<char> {
    label + seq![':', ' '] + decimal(size)
}

/// The line that a probe prints of what crosses its pad: one for a buffer,
/// none for anything else or for nothing.
pub open spec fn observed_line(label: Seq<char>, data: Option<ProbeData>) -> Option<Seq<char>> {
    match data {
        Some(ProbeData::Buffer(size)) => Some(probe_line(label, size as nat)),
        _ => None,
    }
}

/// Calls a probe on what crosses its pad. The probe reports the size of a
/// buffer, and always lets the data pass and stays in place.
pub fn observe(probe: &Probe, data: Option<ProbeData>) -> (observation: Observation)
    ensures
        observation.verdict == ProbeReturn::Keep,
        optional_text(observation.line) == observed_line(probe@.label, data),
{
    let line = match data {
        Some(ProbeData::Buffer(size)) => {
            proof {
                reveal_strlit(": ");
            }
            let mut line = probe.label.clone();
            line.append(": ");
            push_decimal(&mut line, size as u64);
            assert(line@ =~= probe_line(probe@.label, size as nat));
            Some(line)
        },
        _ => None,
    };
    Observation { line, verdict: ProbeReturn::Keep }
}

} // verus!
