//! Legacy completions.

use super::chat::{
    is_number_error, lemma_input_names, max_tokens_for, model_shown, number_error, scalar_shape,
    string_vec_to_byte_vecs, strings_as_bytes, MAX_TOKENS, MODEL_OUTPUT_NAME,
};
use crate::backend::triton::request::{
    add_input, dimension, empty_request, has_input, is_valid_request, lemma_row_shape_fits,
    row_shape, with_input, with_output, BuildError, Builder, InferTensorData, TensorValues,
};
use crate::backend::triton::response::TextStyle;
use crate::backend::triton::stream::{
    collect_text, collected_text, is_collect_error, is_reading_error, output_missing,
    output_missing_message, stream_end, stream_step, text_reading, DecodeView, StepView,
    StreamDecodeState, StreamPhase, StreamStep,
};
use crate::backend::triton::{ModelInferRequest, ModelStreamInferResponse, RequestView};
use crate::errors::AiRouterError;
use crate::ident::{completion_id_of, new_completion_id};
use crate::openai::{usage, usage_of, FinishReason, StreamEvent, Usage};
use crate::request::{
    check_input_cc, guard_failure, guard_passes, guarded_count, shown_model, AiRouterRequestData,
};
use vstd::prelude::*;
use vstd::string::*;
use vstd::utf8::*;

verus! {

/// The parameters of a legacy completion request. Numbers that the API gives
/// as floating point are held as their single-precision bit patterns.
#[derive(Debug)]
pub struct CompletionCreateParams {
    /// The model to use.
    pub model: String,
    /// The prompts to complete.
    pub prompt: Vec<String>,
    /// How many completions to generate and pick the best from.
    pub best_of: usize,
    /// Whether to send the prompt back with the completion.
    pub echo: bool,
    /// Bit pattern of the frequency penalty.
    pub frequency_penalty: u32,
    /// Bit patterns of the biases, by token.
    pub logit_bias: Option<Vec<(String, u32)>>,
    /// How many of the likeliest tokens to report.
    pub logprobs: Option<usize>,
    /// How many tokens to generate at most.
    pub max_tokens: Option<u32>,
    /// How many completions to generate for each prompt.
    pub n: usize,
    /// Bit pattern of the presence penalty.
    pub presence_penalty: u32,
    /// The seed for sampling.
    pub seed: Option<usize>,
    /// The sequences at which generation stops.
    pub stop: Option<Vec<String>>,
    /// Whether to stream the completion.
    pub stream: bool,
    /// What comes after the completion.
    pub suffix: Option<String>,
    /// Bit pattern of the sampling temperature.
    pub temperature: u32,
    /// Bit pattern of the nucleus sampling mass.
    pub top_p: u32,
    /// The end user on whose behalf the request is made.
    pub user: Option<String>,
}

/// A legacy completion, whole or as a chunk of a stream.
#[derive(Debug)]
pub struct Completion {
    pub id: String,
    pub object: String,
    pub created: u64,
    pub model: String,
    pub choices: Vec<CompletionChoice>,
    pub usage: Option<Usage>,
}

/// One choice of a legacy completion.
#[derive(Debug)]
pub struct CompletionChoice {
    pub text: String,
    pub index: usize,
    pub logprobs: Option<()>,
    pub finish_reason: Option<FinishReason>,
}

/// The bit pattern of 1.0 in single precision.
pub const ONE: u32 = 0x3f80_0000;

/// `best_of` where the request gives none.
pub fn default_best_of() -> (r: usize)
    ensures
        r == 1,
{
    1
}

/// `echo` where the request gives none.
pub fn default_echo() -> (r: bool)
    ensures
        !r,
{
    false
}

/// The frequency penalty where the request gives none: the bits of 0.0.
pub fn default_frequency_penalty() -> (r: u32)
    ensures
        r == 0,
{
    0
}

/// `n` where the request gives none.
pub fn default_n() -> (r: usize)
    ensures
        r == 1,
{
    1
}

/// The presence penalty where the request gives none: the bits of 0.0.
pub fn default_presence_penalty() -> (r: u32)
    ensures
        r == 0,
{
    0
}

/// `stream` where the request gives none.
pub fn default_stream() -> (r: bool)
    ensures
        !r,
{
    false
}

/// The temperature where the request gives none: the bits of 1.0.
pub fn default_temperature() -> (r: u32)
    ensures
        r == ONE,
{
    ONE
}

/// The nucleus sampling mass where the request gives none: the bits of 1.0.
pub fn default_top_p() -> (r: u32)
    ensures
        r == ONE,
{
    ONE
}

/// The stop sequences of a request as byte strings; the end marker alone
/// where the request gives none.
pub open spec fn stop_words_or_marker(stop: Option<Vec<String>>) -> Seq<Seq<u8>> {
    match stop {
        Some(words) => strings_as_bytes(words@),
        None => seq![encode_utf8("</s>"@)],
    }
}

/// The inference request for a legacy completion request whose prompt was
/// rendered as `input`: in this order the prompt, the token limit, no bad
/// words, the stop sequences as a row with one column each, the nucleus
/// sampling mass, the temperature, the presence penalty, the number of
/// completions, the streaming flag and, where the request gives one, the
/// seed.
pub open spec fn completion_request(
    request: CompletionCreateParams,
    configured_max: Option<u32>,
    input: Seq<char>,
) -> RequestView {
    let named = RequestView { model_name: request.model@, ..empty_request() };
    let prompt = with_input(
        named,
        "text_input"@,
        scalar_shape(),
        TensorValues::Bytes(seq![encode_utf8(input)]),
    );
    let max_tokens = with_input(
        prompt,
        "max_tokens"@,
        scalar_shape(),
        TensorValues::Int32(seq![max_tokens_for(request.max_tokens, configured_max) as i32]),
    );
    let bad_words = with_input(
        max_tokens,
        "bad_words"@,
        scalar_shape(),
        TensorValues::Bytes(seq![Seq::<u8>::empty()]),
    );
    let stop = with_input(
        bad_words,
        "stop_words"@,
        seq![1i64, stop_words_or_marker(request.stop).len() as i64],
        TensorValues::Bytes(stop_words_or_marker(request.stop)),
    );
    let top_p = with_input(
        stop,
        "top_p"@,
        scalar_shape(),
        TensorValues::FP32(seq![request.top_p]),
    );
    let temperature = with_input(
        top_p,
        "temperature"@,
        scalar_shape(),
        TensorValues::FP32(seq![request.temperature]),
    );
    let presence_penalty = with_input(
        temperature,
        "presence_penalty"@,
        scalar_shape(),
        TensorValues::FP32(seq![request.presence_penalty]),
    );
    let beam_width = with_input(
        presence_penalty,
        "beam_width"@,
        scalar_shape(),
        TensorValues::Int32(seq![request.n as i32]),
    );
    let stream = with_input(
        beam_width,
        "stream"@,
        scalar_shape(),
        TensorValues::Bool(seq![request.stream]),
    );
    let output = with_output(stream, MODEL_OUTPUT_NAME@);
    match request.seed {
        Some(seed) => with_input(
            output,
            "random_seed"@,
            scalar_shape(),
            TensorValues::UInt64(seq![seed as u64]),
        ),
        None => output,
    }
}

/// Whether the numbers of a legacy completion request fit the tensors that
/// carry them.
pub open spec fn completion_numbers_fit(
    request: CompletionCreateParams,
    configured_max: Option<u32>,
) -> bool {
    &&& max_tokens_for(request.max_tokens, configured_max) <= i32::MAX
    &&& stop_words_or_marker(request.stop).len() <= i64::MAX
    &&& request.n <= i32::MAX
}

/// The inference request for a legacy completion request: see
/// [`completion_request`].
///
/// `input` is the prompt as the templates rendered it and `encoded` what the
/// tokenizer made of it. The prompt is held against the model's limit first;
/// then the numbers must fit; last, the request must name a model.
pub fn build_triton_request(
    request: CompletionCreateParams,
    request_data: &mut AiRouterRequestData,
    input: &str,
    encoded: Option<usize>,
) -> (r: Result<ModelInferRequest, AiRouterError>)
    ensures
        r matches Ok(built) ==> is_valid_request(built@),
        final(request_data).max_input == old(request_data).max_input,
        final(request_data).max_tokens == old(request_data).max_tokens,
        final(request_data).original_model == old(request_data).original_model,
        final(request_data).tokenizer == old(request_data).tokenizer,
        final(request_data).prompt_tokens == guarded_count(*old(request_data), encoded),
        match r {
            Ok(built) => {
                &&& guard_passes(*old(request_data), encoded)
                &&& completion_numbers_fit(request, old(request_data).max_tokens)
                &&& request.model@.len() > 0
                &&& built@ == completion_request(request, old(request_data).max_tokens, input@)
            },
            Err(e) => if !guard_passes(*old(request_data), encoded) {
                guard_failure(
                    *old(request_data),
                    encoded,
                    shown_model(old(request_data).original_model, request.model@),
                    e,
                )
            } else if !completion_numbers_fit(request, old(request_data).max_tokens) {
                is_number_error(e)
            } else {
                &&& request.model@.len() == 0
                &&& e matches AiRouterError::InternalServerError(m) && m@
                    == BuildError::NoModelName.message()
            },
        },
{
    match check_input_cc(encoded, request.model.as_str(), request_data) {
        Err(e) => {
            return Err(e);
        },
        Ok(_) => {},
    }
    let max_tokens: u32 = match request.max_tokens {
        Some(n) => n,
        None => match request_data.max_tokens {
            Some(n) => n,
            None => MAX_TOKENS,
        },
    };
    if max_tokens > 0x7fff_ffff {
        return Err(number_error());
    }
    let words: Vec<Vec<u8>> = match &request.stop {
        Some(words) => string_vec_to_byte_vecs(words),
        None => {
            let mut words: Vec<Vec<u8>> = Vec::new();
            words.push("</s>".as_bytes_vec());
            assert(words@.map_values(|b: Vec<u8>| b@) =~= seq![encode_utf8("</s>"@)]);
            words
        },
    };
    let columns: i64 = match dimension(words.len()) {
        Some(d) => d,
        None => {
            return Err(number_error());
        },
    };
    if request.n > 0x7fff_ffff {
        return Err(number_error());
    }
    proof {
        lemma_input_names();
        lemma_row_shape_fits(1);
        lemma_row_shape_fits(columns);
    }
    let ghost names = Set::<Seq<char>>::empty();
    let builder = Builder::new().model_name(request.model.as_str());
    assert forall|other: Seq<char>| has_input(builder.request()->0, other) implies names.contains(
        other,
    ) by {
        assert(builder.request()->0.inputs.len() == 0);
    }
    let builder = add_input(
        builder,
        "text_input",
        row_shape(1),
        InferTensorData::one_bytes(input.as_bytes_vec()),
        Ghost(names),
    );
    let ghost names = names.insert("text_input"@);
    let builder = add_input(
        builder,
        "max_tokens",
        row_shape(1),
        InferTensorData::one_int32(max_tokens as i32),
        Ghost(names),
    );
    let ghost names = names.insert("max_tokens"@);
    let builder = add_input(
        builder,
        "bad_words",
        row_shape(1),
        InferTensorData::one_bytes(Vec::new()),
        Ghost(names),
    );
    let ghost names = names.insert("bad_words"@);
    let builder = add_input(
        builder,
        "stop_words",
        row_shape(columns),
        InferTensorData::Bytes(words),
        Ghost(names),
    );
    let ghost names = names.insert("stop_words"@);
    let builder = add_input(
        builder,
        "top_p",
        row_shape(1),
        InferTensorData::one_fp32(request.top_p),
        Ghost(names),
    );
    let ghost names = names.insert("top_p"@);
    let builder = add_input(
        builder,
        "temperature",
        row_shape(1),
        InferTensorData::one_fp32(request.temperature),
        Ghost(names),
    );
    let ghost names = names.insert("temperature"@);
    let builder = add_input(
        builder,
        "presence_penalty",
        row_shape(1),
        InferTensorData::one_fp32(request.presence_penalty),
        Ghost(names),
    );
    let ghost names = names.insert("presence_penalty"@);
    let builder = add_input(
        builder,
        "beam_width",
        row_shape(1),
        InferTensorData::one_int32(request.n as i32),
        Ghost(names),
    );
    let ghost names = names.insert("beam_width"@);
    let builder = add_input(
        builder,
        "stream",
        row_shape(1),
        InferTensorData::one_bool(request.stream),
        Ghost(names),
    );
    let ghost names = names.insert("stream"@);
    let mut builder = builder.output(MODEL_OUTPUT_NAME);
    if let Some(seed) = request.seed {
        builder =
        add_input(
            builder,
            "random_seed",
            row_shape(1),
            InferTensorData::one_uint64(seed as u64),
            Ghost(names),
        );
    }
    proof {
        builder.lemma_request_or_error();
    }
    match builder.build() {
        Ok(built) => Ok(built),
        Err(e) => Err(AiRouterError::InternalServerError(e.describe())),
    }
}

/// Whether `completion` is the completion with these values and one choice,
/// which carries `text` and ends as `finish_reason` says.
pub open spec fn is_completion(
    completion: Completion,
    id: Seq<char>,
    created: u64,
    model: Seq<char>,
    text: Seq<char>,
    finish_reason: Option<FinishReason>,
    usage: Option<Usage>,
) -> bool {
    &&& completion.id@ == id
    &&& completion.object@ == "text_completion"@
    &&& completion.created == created
    &&& completion.model@ == model
    &&& completion.usage == usage
    &&& completion.choices@.len() == 1
    &&& completion.choices@[0].text@ == text
    &&& completion.choices@[0].index == 0
    &&& completion.choices@[0].logprobs is None
    &&& completion.choices@[0].finish_reason == finish_reason
}

fn completion_of(
    id: String,
    created: u64,
    model: String,
    text: String,
    finish_reason: Option<FinishReason>,
    usage: Option<Usage>,
) -> (r: Completion)
    ensures
        is_completion(r, id@, created, model@, text@, finish_reason, usage),
{
    let mut choices: Vec<CompletionChoice> = Vec::new();
    choices.push(CompletionChoice { text, index: 0, logprobs: None, finish_reason });
    Completion { id, object: "text_completion".to_owned(), created, model, choices, usage }
}

/// The completion for a response that has come in whole.
///
/// The strings of all messages, each without the white space around it, make
/// up the text, message by message and without end markers. The first
/// message that carries no text fails the completion.
pub fn assemble_completion(
    parts: &Vec<ModelStreamInferResponse>,
    request_data: &AiRouterRequestData,
    model: &str,
    id: String,
    created: u64,
) -> (r: Result<Completion, AiRouterError>)
    ensures
        match r {
            Ok(completion) => {
                &&& collected_text(parts@, MODEL_OUTPUT_NAME@, TextStyle::Trimmed) is Some
                &&& is_completion(
                    completion,
                    id@,
                    created,
                    shown_model(request_data.original_model, model@),
                    collected_text(parts@, MODEL_OUTPUT_NAME@, TextStyle::Trimmed)->0,
                    Some(FinishReason::StopSequenceReached),
                    Some(usage_of(request_data.prompt_tokens)),
                )
            },
            Err(e) => collected_text(parts@, MODEL_OUTPUT_NAME@, TextStyle::Trimmed) is None && is_collect_error(
                parts@,
                MODEL_OUTPUT_NAME@,
                TextStyle::Trimmed,
                e,
            ),
        },
{
    let text = match collect_text(parts, MODEL_OUTPUT_NAME, TextStyle::Trimmed) {
        Ok(text) => text,
        Err(e) => {
            return Err(e);
        },
    };
    Ok(
        completion_of(
            id,
            created,
            model_shown(request_data, model),
            text,
            Some(FinishReason::StopSequenceReached),
            Some(usage(request_data.prompt_tokens)),
        ),
    )
}

/// The completion for a response that has come in whole, under a fresh
/// identifier: see [`assemble_completion`].
pub fn completions(
    parts: &Vec<ModelStreamInferResponse>,
    request_data: &AiRouterRequestData,
    model: &str,
    created: u64,
) -> (r: Result<Completion, AiRouterError>)
    ensures
        match r {
            Ok(completion) => {
                &&& collected_text(parts@, MODEL_OUTPUT_NAME@, TextStyle::Trimmed) is Some
                &&& exists|unique: Seq<char>|
                    unique.len() == 36 && is_completion(
                        completion,
                        completion_id_of(unique),
                        created,
                        shown_model(request_data.original_model, model@),
                        collected_text(parts@, MODEL_OUTPUT_NAME@, TextStyle::Trimmed)->0,
                        Some(FinishReason::StopSequenceReached),
                        Some(usage_of(request_data.prompt_tokens)),
                    )
            },
            Err(e) => collected_text(parts@, MODEL_OUTPUT_NAME@, TextStyle::Trimmed) is None && is_collect_error(
                parts@,
                MODEL_OUTPUT_NAME@,
                TextStyle::Trimmed,
                e,
            ),
        },
{
    let id = new_completion_id();
    assemble_completion(parts, request_data, model, id, created)
}

/// A streamed legacy completion: what every chunk of it carries, and the
/// state of the reducer that makes its chunks.
#[derive(Debug)]
pub struct CompletionStream {
    pub id: String,
    pub created: u64,
    pub model: String,
    pub decode: StreamDecodeState,
}

/// Whether `events` are the events that `stream` sends for a step of its
/// reducer: one chunk with the text for an addition, one error event for a
/// failure of the backend and for a missing output, and none otherwise.
pub open spec fn are_step_events(
    events: Seq<StreamEvent<Completion>>,
    stream: CompletionStream,
    step: StepView,
) -> bool {
    match step {
        StepView::Delta(text) => events.len() == 1 && (events[0] matches StreamEvent::Chunk(chunk)
            && is_completion(chunk, stream.id@, stream.created, stream.model@, text, None, None)),
        StepView::BackendError => events.len() == 1 && events[0] is BackendError,
        StepView::OutputMissing => events.len() == 1 && (events[0] matches StreamEvent::Error(
            message,
        ) && message@ == output_missing_message(MODEL_OUTPUT_NAME@)),
        _ => events.len() == 0,
    }
}

/// Whether `events` are the events that `stream` sends at the end of the
/// backend's stream: a chunk without text that ends with a stop and, behind
/// it, the sentinel, for a stream that was running; none for one that had
/// failed or ended.
pub open spec fn are_end_events(events: Seq<StreamEvent<Completion>>, stream: CompletionStream) -> bool {
    if stream.decode.phase == StreamPhase::Streaming {
        &&& events.len() == 2
        &&& events[0] matches StreamEvent::Chunk(chunk) && is_completion(
            chunk,
            stream.id@,
            stream.created,
            stream.model@,
            Seq::empty(),
            Some(FinishReason::StopSequenceReached),
            None,
        )
        &&& events[1] is Done
    } else {
        events.len() == 0
    }
}

impl CompletionStream {
    /// A stream that starts now, under the identifier `id`, for a request to
    /// `model`.
    pub fn with_id(id: String, created: u64, request_data: &AiRouterRequestData, model: &str) -> (r:
        CompletionStream)
        ensures
            r.id == id,
            r.created == created,
            r.model@ == shown_model(request_data.original_model, model@),
            r.decode@ == (DecodeView { phase: StreamPhase::Streaming, previous: Seq::empty() }),
    {
        CompletionStream {
            id,
            created,
            model: model_shown(request_data, model),
            decode: StreamDecodeState::new(),
        }
    }

    /// A stream that starts now, under a fresh identifier.
    pub fn start(created: u64, request_data: &AiRouterRequestData, model: &str) -> (r:
        CompletionStream)
        ensures
            exists|unique: Seq<char>| unique.len() == 36 && r.id@ == completion_id_of(unique),
            r.created == created,
            r.model@ == shown_model(request_data.original_model, model@),
            r.decode@ == (DecodeView { phase: StreamPhase::Streaming, previous: Seq::empty() }),
    {
        CompletionStream::with_id(new_completion_id(), created, request_data, model)
    }
}

/// Takes the next message of the backend's stream, or its end where
/// `message` is `None`, and returns the events to send for it, in order.
///
/// For a message, the reducer takes a step (see
/// [`stream_step`](crate::backend::triton::stream::stream_step)): an
/// addition is sent as a chunk, a failure of the backend and a missing
/// output as an error event, and a message that cannot be read fails the
/// stream with the error that says why. At the end of a stream that was
/// running, a chunk that ends the completion goes out and then the
/// sentinel. What every chunk carries stays as it is.
pub fn completions_stream(
    stream: &mut CompletionStream,
    message: Option<&ModelStreamInferResponse>,
) -> (r: Result<Vec<StreamEvent<Completion>>, AiRouterError>)
    ensures
        final(stream).id == old(stream).id,
        final(stream).created == old(stream).created,
        final(stream).model == old(stream).model,
        match message {
            Some(part) => {
                let reading = text_reading(*part, MODEL_OUTPUT_NAME@, TextStyle::Generated);
                let (after, step) = stream_step(old(stream).decode@, reading);
                &&& final(stream).decode@ == after
                &&& match r {
                    Ok(events) => !(step is Failed) && are_step_events(events@, *old(stream), step),
                    Err(e) => step is Failed && is_reading_error(
                        reading,
                        *part,
                        MODEL_OUTPUT_NAME@,
                        e,
                    ),
                }
            },
            None => {
                &&& final(stream).decode@ == stream_end(old(stream).decode@)
                &&& r matches Ok(events) && are_end_events(events@, *old(stream))
            },
        },
{
    let mut events: Vec<StreamEvent<Completion>> = Vec::new();
    match message {
        Some(part) => match stream.decode.step(part, MODEL_OUTPUT_NAME) {
            StreamStep::Quiet => {},
            StreamStep::Delta(text) => {
                let chunk = completion_of(
                    stream.id.clone(),
                    stream.created,
                    stream.model.clone(),
                    text,
                    None,
                    None,
                );
                events.push(StreamEvent::Chunk(chunk));
            },
            StreamStep::BackendError => {
                events.push(StreamEvent::BackendError);
            },
            StreamStep::OutputMissing => {
                events.push(StreamEvent::Error(output_missing(MODEL_OUTPUT_NAME)));
            },
            StreamStep::Failed(e) => {
                return Err(e);
            },
        },
        None => {
            if stream.decode.finish() {
                let chunk = completion_of(
                    stream.id.clone(),
                    stream.created,
                    stream.model.clone(),
                    String::new(),
                    Some(FinishReason::StopSequenceReached),
                    None,
                );
                events.push(StreamEvent::Chunk(chunk));
                events.push(StreamEvent::Done);
            }
        },
    }
    Ok(events)
}

} // verus!
