//! Turning a stream of cumulative texts into a stream of additions.
//!
//! The backend sends, with every message, the whole text generated so far.
//! A client wants only what is new. The reducer keeps the text it sent last
//! and hands out what a message adds to it.

use super::response::{
    decode_text, output_reading, read_output, tensor_text, OutputFailure, TextStyle,
};
use super::ModelStreamInferResponse;
use crate::errors::{utf8_error_text, AiRouterError};
use crate::text::{added_text, text_added};
use vstd::prelude::*;
use vstd::string::*;

verus! {

/// Where a response stream stands.
#[derive(Debug, Clone, Copy, PartialEq, Eq, Structural)]
pub enum StreamPhase {
    /// Messages are still taken.
    Streaming,
    /// The stream ended as it should.
    Done,
    /// The stream failed; nothing more is taken from it.
    Errored,
}

/// The reducer's state: the phase of the stream and the text sent last.
#[derive(Debug)]
pub struct StreamDecodeState {
    pub phase: StreamPhase,
    pub previous: String,
}

/// The state of a reducer, as values.
pub struct DecodeView {
    pub phase: StreamPhase,
    pub previous: Seq<char>,
}

impl View for StreamDecodeState {
    type V = DecodeView;

    open spec fn view(&self) -> DecodeView {
        DecodeView { phase: self.phase, previous: self.previous@ }
    }
}

/// What a message means to the reader of a text output.
pub enum TextReading {
    /// The backend reports a failure.
    BackendError,
    /// The message carries neither an error message nor a response.
    EmptyResponse,
    /// The response has no tensor of the name asked for.
    OutputMissing,
    /// The response names the tensor but has no raw payload for it.
    PayloadMissing,
    /// The payload is no byte-string tensor of UTF-8 strings.
    Undecodable,
    /// The text that the payload carries, end markers taken out.
    Text(Seq<char>),
}

/// What `part` means to the reader of the text output called `name`.
pub open spec fn text_reading(
    part: ModelStreamInferResponse,
    name: Seq<char>,
    style: TextStyle,
) -> TextReading {
    match output_reading(part, name) {
        Err(OutputFailure::BackendError) => TextReading::BackendError,
        Err(OutputFailure::EmptyResponse) => TextReading::EmptyResponse,
        Err(OutputFailure::OutputMissing) => TextReading::OutputMissing,
        Err(OutputFailure::PayloadMissing) => TextReading::PayloadMissing,
        Ok(idx) => match tensor_text(
            part.infer_response->0.raw_output_contents@[idx as int]@,
            style,
        ) {
            Some(text) => TextReading::Text(text),
            None => TextReading::Undecodable,
        },
    }
}

/// What the reducer hands out for one message.
#[derive(Debug)]
pub enum StreamStep {
    /// Nothing: the message adds no text, or the stream is over.
    Quiet,
    /// The text that the message adds.
    Delta(String),
    /// The backend reported a failure.
    BackendError,
    /// The response lacks the output.
    OutputMissing,
    /// The message cannot be read.
    Failed(AiRouterError),
}

/// A step of the reducer, as values.
pub enum StepView {
    Quiet,
    Delta(Seq<char>),
    BackendError,
    OutputMissing,
    Failed,
}

impl View for StreamStep {
    type V = StepView;

    open spec fn view(&self) -> StepView {
        match self {
            StreamStep::Quiet => StepView::Quiet,
            StreamStep::Delta(text) => StepView::Delta(text@),
            StreamStep::BackendError => StepView::BackendError,
            StreamStep::OutputMissing => StepView::OutputMissing,
            StreamStep::Failed(_) => StepView::Failed,
        }
    }
}

/// The state after a message and what is handed out for it.
///
/// A stream that ended or failed takes nothing more. A failure that the
/// backend reports, a missing output and a message that cannot be read each
/// end the stream in failure. A text is held against the text sent last: what
/// it adds is handed out and the text is kept, unless it adds nothing, which
/// changes nothing.
pub open spec fn stream_step(state: DecodeView, reading: TextReading) -> (DecodeView, StepView) {
    if state.phase != StreamPhase::Streaming {
        (state, StepView::Quiet)
    } else {
        match reading {
            TextReading::BackendError => (
                DecodeView { phase: StreamPhase::Errored, ..state },
                StepView::BackendError,
            ),
            TextReading::OutputMissing => (
                DecodeView { phase: StreamPhase::Errored, ..state },
                StepView::OutputMissing,
            ),
            TextReading::Text(text) => {
                let delta = added_text(text, state.previous);
                if delta.len() == 0 {
                    (state, StepView::Quiet)
                } else {
                    (
                        DecodeView { phase: StreamPhase::Streaming, previous: text },
                        StepView::Delta(delta),
                    )
                }
            },
            _ => (DecodeView { phase: StreamPhase::Errored, ..state }, StepView::Failed),
        }
    }
}

/// The message of the error for a response without the output `name`.
pub open spec fn output_missing_message(name: Seq<char>) -> Seq<char> {
    name + " not found in Triton response"@
}

/// The message of the error for an output `name` without a raw payload.
pub open spec fn payload_missing_message(name: Seq<char>) -> Seq<char> {
    name + " has no raw contents in Triton response"@
}

/// The message of the error for a failure that the backend reported as
/// `reported`.
pub open spec fn backend_error_message(reported: Seq<char>) -> Seq<char> {
    "error message received from triton: "@ + reported
}

/// Whether `e` is the error for a message that reads as `reading`, which is
/// no text.
pub open spec fn is_reading_error(
    reading: TextReading,
    part: ModelStreamInferResponse,
    name: Seq<char>,
    e: AiRouterError,
) -> bool {
    e matches AiRouterError::InternalServerError(m) && match reading {
        TextReading::BackendError => m@ == backend_error_message(part.error_message@),
        TextReading::EmptyResponse => m@ == "empty infer response received"@,
        TextReading::OutputMissing => m@ == output_missing_message(name),
        TextReading::PayloadMissing => m@ == payload_missing_message(name),
        TextReading::Undecodable => true,
        TextReading::Text(_) => false,
    }
}

/// The message for a response without the output `name`.
pub fn output_missing(name: &str) -> (r: String)
    ensures
        r@ == output_missing_message(name@),
{
    let mut message = String::new();
    message.append(name);
    message.append(" not found in Triton response");
    assert(message@ =~= output_missing_message(name@));
    message
}

/// The error for a message that holds no payload for the output `name`.
pub(crate) fn failure_error(failure: OutputFailure, part: &ModelStreamInferResponse, name: &str) -> (r:
    AiRouterError)
    requires
        output_reading(*part, name@) == Err::<usize, OutputFailure>(failure),
    ensures
        forall|style: TextStyle|
            is_reading_error(#[trigger] text_reading(*part, name@, style), *part, name@, r),
{
    match failure {
        OutputFailure::BackendError => {
            let mut message = String::new();
            message.append("error message received from triton: ");
            message.append(part.error_message.as_str());
            assert(message@ =~= backend_error_message(part.error_message@));
            AiRouterError::InternalServerError(message)
        },
        OutputFailure::EmptyResponse => AiRouterError::InternalServerError(
            "empty infer response received".to_owned(),
        ),
        OutputFailure::OutputMissing => AiRouterError::InternalServerError(output_missing(name)),
        OutputFailure::PayloadMissing => {
            let mut message = String::new();
            message.append(name);
            message.append(" has no raw contents in Triton response");
            assert(message@ =~= payload_missing_message(name@));
            AiRouterError::InternalServerError(message)
        },
    }
}

/// The text that `part` carries in the output called `name`, or the error
/// that says why it carries none.
pub fn read_text(part: &ModelStreamInferResponse, name: &str, style: TextStyle) -> (r: Result<
    String,
    AiRouterError,
>)
    ensures
        match r {
            Ok(text) => text_reading(*part, name@, style) == TextReading::Text(text@),
            Err(e) => is_reading_error(text_reading(*part, name@, style), *part, name@, e),
        },
{
    match read_output(part, name) {
        Err(failure) => Err(failure_error(failure, part, name)),
        Ok((response, idx)) => match decode_text(&response.raw_output_contents[idx], style) {
            Ok(text) => Ok(text),
            Err(e) => Err(AiRouterError::InternalServerError(utf8_error_text(&e))),
        },
    }
}

impl StreamDecodeState {
    /// The state at the start of a stream: nothing was sent yet.
    pub fn new() -> (r: Self)
        ensures
            r@ == (DecodeView { phase: StreamPhase::Streaming, previous: Seq::empty() }),
    {
        StreamDecodeState { phase: StreamPhase::Streaming, previous: String::new() }
    }

    /// Takes one message of the stream, for the text output called `name`:
    /// see [`stream_step`]. Where the message cannot be read, the error says
    /// why.
    pub fn step(&mut self, part: &ModelStreamInferResponse, name: &str) -> (r: StreamStep)
        ensures
            (final(self)@, r@) == stream_step(old(self)@, text_reading(*part, name@, TextStyle::Generated)),
            r matches StreamStep::Failed(e) ==> is_reading_error(
                text_reading(*part, name@, TextStyle::Generated),
                *part,
                name@,
                e,
            ),
    {
        match self.phase {
            StreamPhase::Streaming => {},
            _ => {
                return StreamStep::Quiet;
            },
        }
        match read_output(part, name) {
            Err(OutputFailure::BackendError) => {
                self.phase = StreamPhase::Errored;
                StreamStep::BackendError
            },
            Err(OutputFailure::OutputMissing) => {
                self.phase = StreamPhase::Errored;
                StreamStep::OutputMissing
            },
            Err(failure) => {
                self.phase = StreamPhase::Errored;
                StreamStep::Failed(failure_error(failure, part, name))
            },
            Ok((response, idx)) => match decode_text(&response.raw_output_contents[idx], TextStyle::Generated) {
                Ok(text) => {
                    let delta = text_added(text.as_str(), self.previous.as_str());
                    if delta.as_str().is_empty() {
                        StreamStep::Quiet
                    } else {
                        self.previous = text;
                        StreamStep::Delta(delta)
                    }
                },
                Err(e) => {
                    self.phase = StreamPhase::Errored;
                    StreamStep::Failed(AiRouterError::InternalServerError(utf8_error_text(&e)))
                },
            },
        }
    }

    /// Takes the end of the stream. A stream that was still running is done
    /// now, which the result says; one that failed stays failed.
    pub fn finish(&mut self) -> (r: bool)
        ensures
            r == (old(self).phase == StreamPhase::Streaming),
            final(self)@ == stream_end(old(self)@),
    {
        match self.phase {
            StreamPhase::Streaming => {
                self.phase = StreamPhase::Done;
                true
            },
            _ => false,
        }
    }
}

/// The state after the end of the stream.
pub open spec fn stream_end(state: DecodeView) -> DecodeView {
    if state.phase == StreamPhase::Streaming {
        DecodeView { phase: StreamPhase::Done, ..state }
    } else {
        state
    }
}

/// The texts of all of `parts`, one after the other; `None` where one of
/// them carries no text.
pub open spec fn collected_text(
    parts: Seq<ModelStreamInferResponse>,
    name: Seq<char>,
    style: TextStyle,
) -> Option<Seq<char>>
    decreases parts.len(),
{
    if parts.len() == 0 {
        Some(Seq::empty())
    } else {
        match (collected_text(parts.drop_last(), name, style), text_reading(parts.last(), name, style)) {
            (Some(head), TextReading::Text(text)) => Some(head + text),
            _ => None,
        }
    }
}

/// Whether `e` is the error for the first of `parts` that carries no text.
pub open spec fn is_collect_error(
    parts: Seq<ModelStreamInferResponse>,
    name: Seq<char>,
    style: TextStyle,
    e: AiRouterError,
) -> bool {
    exists|i: int|
        {
            &&& 0 <= i < parts.len()
            &&& collected_text(parts.take(i), name, style) is Some
            &&& is_reading_error(
                text_reading(#[trigger] parts[i], name, style),
                parts[i],
                name,
                e,
            )
        }
}

proof fn lemma_collected_text_stops(
    parts: Seq<ModelStreamInferResponse>,
    name: Seq<char>,
    style: TextStyle,
    n: int,
)
    requires
        0 <= n <= parts.len(),
        collected_text(parts.take(n), name, style) is None,
    ensures
        collected_text(parts, name, style) is None,
    decreases parts.len() - n,
{
    if n < parts.len() {
        assert(parts.take(n + 1).drop_last() =~= parts.take(n));
        lemma_collected_text_stops(parts, name, style, n + 1);
    } else {
        assert(parts.take(n) =~= parts);
    }
}

/// The texts of all of `parts`, one after the other, read in order up to
/// the first that carries no text, whose error is returned.
pub fn collect_text(parts: &Vec<ModelStreamInferResponse>, name: &str, style: TextStyle) -> (r:
    Result<String, AiRouterError>)
    ensures
        match r {
            Ok(text) => collected_text(parts@, name@, style) == Some(text@),
            Err(e) => collected_text(parts@, name@, style) is None && is_collect_error(
                parts@,
                name@,
                style,
                e,
            ),
        },
{
    let mut whole = String::new();
    let mut i: usize = 0;
    assert(parts@.take(0) =~= Seq::<ModelStreamInferResponse>::empty());
    while i < parts.len()
        invariant
            i <= parts@.len(),
            collected_text(parts@.take(i as int), name@, style) == Some(whole@),
        decreases parts@.len() - i,
    {
        proof {
            assert(parts@.take(i + 1).drop_last() =~= parts@.take(i as int));
            assert(parts@.take(i + 1).last() == parts@[i as int]);
        }
        match read_text(&parts[i], name, style) {
            Ok(text) => {
                whole.append(text.as_str());
            },
            Err(e) => {
                proof {
                    lemma_collected_text_stops(parts@, name@, style, i + 1);
                }
                return Err(e);
            },
        }
        i += 1;
    }
    assert(parts@.take(i as int) =~= parts@);
    Ok(whole)
}

/// The state after a run of messages and what is handed out for each, in
/// order.
pub open spec fn stream_run(state: DecodeView, readings: Seq<TextReading>) -> (
    DecodeView,
    Seq<StepView>,
)
    decreases readings.len(),
{
    if readings.len() == 0 {
        (state, Seq::empty())
    } else {
        let (next, step) = stream_step(state, readings[0]);
        let (last, steps) = stream_run(next, readings.drop_first());
        (last, seq![step] + steps)
    }
}

/// The texts that a run hands out, one after the other.
pub open spec fn handed_out(steps: Seq<StepView>) -> Seq<char>
    decreases steps.len(),
{
    if steps.len() == 0 {
        Seq::empty()
    } else {
        match steps[0] {
            StepView::Delta(text) => text + handed_out(steps.drop_first()),
            _ => handed_out(steps.drop_first()),
        }
    }
}

/// Whether each text of `texts` begins with the one before it, and the
/// first with `start`.
pub open spec fn extends_in_turn(start: Seq<char>, texts: Seq<Seq<char>>) -> bool
    decreases texts.len(),
{
    texts.len() > 0 ==> start.is_prefix_of(texts[0]) && extends_in_turn(
        texts[0],
        texts.drop_first(),
    )
}

/// No text that is handed out is empty.
pub proof fn lemma_delta_is_never_empty(state: DecodeView, reading: TextReading)
    ensures
        stream_step(state, reading).1 matches StepView::Delta(text) ==> text.len() > 0,
{
}

/// The same cumulative text twice in a row: nothing is handed out for the
/// second, and the state stays as the first left it.
pub proof fn lemma_repeated_text_is_quiet(state: DecodeView, text: Seq<char>)
    ensures
        ({
            let after = stream_step(state, TextReading::Text(text)).0;
            stream_step(after, TextReading::Text(text)) == (after, StepView::Quiet)
        }),
{
    let after = stream_step(state, TextReading::Text(text)).0;
    if state.phase == StreamPhase::Streaming && added_text(text, state.previous).len() > 0 {
        assert(text.is_prefix_of(text));
        assert(added_text(text, text) =~= Seq::<char>::empty());
    }
}

/// A stream that ended or failed hands nothing out and stays as it is.
pub proof fn lemma_terminal_state_is_quiet(state: DecodeView, reading: TextReading)
    requires
        state.phase != StreamPhase::Streaming,
    ensures
        stream_step(state, reading) == (state, StepView::Quiet),
{
}

/// A text that begins with the text sent last: the text sent last and what is
/// handed out make up the text, and the text is the one sent last from then
/// on.
pub proof fn lemma_extension_hands_out_the_rest(state: DecodeView, text: Seq<char>)
    requires
        state.phase == StreamPhase::Streaming,
        state.previous.is_prefix_of(text),
    ensures
        ({
            let (after, step) = stream_step(state, TextReading::Text(text));
            &&& after == DecodeView { phase: StreamPhase::Streaming, previous: text }
            &&& state.previous + handed_out(seq![step]) == text
        }),
{
    let (after, step) = stream_step(state, TextReading::Text(text));
    let delta = added_text(text, state.previous);
    assert(state.previous + delta =~= text);
    assert(seq![step].drop_first() =~= Seq::<StepView>::empty());
    assert(handed_out(seq![step].drop_first()) =~= Seq::<char>::empty());
    if delta.len() == 0 {
        assert(state.previous =~= text);
        assert(handed_out(seq![step]) =~= Seq::<char>::empty());
    } else {
        assert(handed_out(seq![step]) =~= delta);
    }
}

/// A run of cumulative texts, each beginning with the one before it: the
/// text sent before the run and the texts handed out in it make up the last
/// text of the run.
pub proof fn lemma_run_hands_out_the_last_text(state: DecodeView, texts: Seq<Seq<char>>)
    requires
        state.phase == StreamPhase::Streaming,
        texts.len() > 0,
        extends_in_turn(state.previous, texts),
    ensures
        ({
            let (after, steps) = stream_run(state, texts.map_values(|t: Seq<char>| TextReading::Text(t)));
            &&& after == DecodeView { phase: StreamPhase::Streaming, previous: texts.last() }
            &&& state.previous + handed_out(steps) == texts.last()
        }),
    decreases texts.len(),
{
    let readings = texts.map_values(|t: Seq<char>| TextReading::Text(t));
    let (next, step) = stream_step(state, readings[0]);
    let (after, steps) = stream_run(state, readings);
    let (last, rest) = stream_run(next, readings.drop_first());
    lemma_extension_hands_out_the_rest(state, texts[0]);
    assert(readings.drop_first() =~= texts.drop_first().map_values(
        |t: Seq<char>| TextReading::Text(t),
    ));
    assert((seq![step] + rest).drop_first() =~= rest);
    assert(seq![step].drop_first() =~= Seq::<StepView>::empty());
    assert(handed_out(seq![step].drop_first()) =~= Seq::<char>::empty());
    if texts.len() == 1 {
        assert(readings.drop_first() =~= Seq::<TextReading>::empty());
        assert(rest =~= Seq::<StepView>::empty());
        assert(handed_out(rest) =~= Seq::<char>::empty());
        assert(steps =~= seq![step]);
    } else {
        lemma_run_hands_out_the_last_text(next, texts.drop_first());
        assert(texts.drop_first().last() == texts.last());
        assert(handed_out(steps) =~= handed_out(seq![step]) + handed_out(rest));
        assert(state.previous + handed_out(steps) =~= (state.previous + handed_out(seq![step]))
            + handed_out(rest));
    }
}

} // verus!
