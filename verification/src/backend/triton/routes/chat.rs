//! Chat completions.

use crate::backend::triton::request::{
    add_input, dimension, empty_request, has_input, is_valid_request, lemma_row_shape_fits,
    row_shape, with_input, with_output, BuildError, Builder, InferTensorData, TensorValues,
};
use crate::backend::triton::{ModelInferRequest, RequestView};
use crate::backend::triton::response::TextStyle;
use crate::backend::triton::stream::{
    collect_text, collected_text, is_collect_error, is_reading_error, output_missing,
    output_missing_message, stream_end, stream_step, text_reading, DecodeView, StepView,
    StreamDecodeState, StreamPhase, StreamStep,
};
use crate::backend::triton::ModelStreamInferResponse;
use crate::errors::AiRouterError;
use crate::ident::{completion_id_of, new_completion_id};
use crate::openai::{
    usage, usage_of, ChatCompletionChoice, ChatCompletionChunkChoice, ChatCompletionChunkResponse,
    ChatCompletionParameters, ChatCompletionResponse, ChatMessage, ChatMessageContent,
    DeltaChatMessage, FinishReason, Role, StopToken, StreamEvent, Usage,
};
use crate::request::{
    check_input_cc, guard_failure, guard_passes, guarded_count, shown_model, AiRouterRequestData,
};
use vstd::prelude::*;
use vstd::string::*;
use vstd::utf8::*;

verus! {

/// How many tokens a model generates at most where neither the request nor
/// the model's configuration says.
pub const MAX_TOKENS: u32 = 131_072;

/// The name of the output that carries the generated text.
pub const MODEL_OUTPUT_NAME: &'static str = "text_output";

/// The label under which a role's turns stand in the prompt. Turns of a
/// function have none: they are left out.
pub open spec fn role_label(role: Role) -> Option<Seq<char>> {
    match role {
        Role::System => Some("System"@),
        Role::User => Some("User"@),
        Role::Assistant => Some("Assistant"@),
        Role::Tool => Some("Tool"@),
        Role::Function => None,
    }
}

/// The line of the prompt for one turn: the role's label, the speaker's name
/// where the turn has one, a colon and the text. A turn without text, and a
/// turn of a function, has no line.
pub open spec fn turn_line(message: ChatMessage) -> Seq<char> {
    match (message.content, role_label(message.role)) {
        (ChatMessageContent::Text(content), Some(label)) => {
            let speaker = match message.name {
                Some(name) => label + " "@ + name@,
                None => label,
            };
            speaker + ": "@ + content@ + "\n"@
        },
        _ => Seq::empty(),
    }
}

/// The lines of the turns, in order.
pub open spec fn turn_lines(messages: Seq<ChatMessage>) -> Seq<char> {
    messages.map_values(|m: ChatMessage| turn_line(m)).flatten()
}

/// The prompt for a conversation: the lines of its turns and, behind them,
/// the cue for the assistant, with no line break after it.
pub open spec fn chat_history(messages: Seq<ChatMessage>) -> Seq<char> {
    turn_lines(messages) + "ASSISTANT:"@
}

/// The label under which a role's turns stand in the prompt.
fn label_of(role: Role) -> (r: Option<&'static str>)
    ensures
        match r {
            Some(label) => role_label(role) == Some(label@),
            None => role_label(role) is None,
        },
{
    match role {
        Role::System => Some("System"),
        Role::User => Some("User"),
        Role::Assistant => Some("Assistant"),
        Role::Tool => Some("Tool"),
        Role::Function => None,
    }
}

/// The prompt for a conversation: see [`chat_history`].
pub fn build_chat_history(messages: &Vec<ChatMessage>) -> (r: String)
    ensures
        r@ == chat_history(messages@),
{
    let mut history = String::new();
    let mut i: usize = 0;
    assert(messages@.take(0).map_values(|m: ChatMessage| turn_line(m)) =~= Seq::<
        Seq<char>,
    >::empty());
    while i < messages.len()
        invariant
            i <= messages@.len(),
            history@ == turn_lines(messages@.take(i as int)),
        decreases messages@.len() - i,
    {
        let message = &messages[i];
        let ghost before = history@;
        if let ChatMessageContent::Text(content) = &message.content {
            if let Some(label) = label_of(message.role) {
                history.append(label);
                if let Some(name) = &message.name {
                    history.append(" ");
                    history.append(name.as_str());
                }
                history.append(": ");
                history.append(content.as_str());
                history.append("\n");
            }
        }
        proof {
            assert(history@ =~= before + turn_line(*message));
            let lines = messages@.take(i as int).map_values(|m: ChatMessage| turn_line(m));
            lines.lemma_flatten_push(turn_line(*message));
            assert(messages@.take(i + 1).map_values(|m: ChatMessage| turn_line(m)) =~= lines.push(
                turn_line(*message),
            ));
        }
        i += 1;
    }
    assert(messages@.take(i as int) =~= messages@);
    history.append("ASSISTANT:");
    history
}

/// The UTF-8 bytes of each string, in order.
pub open spec fn strings_as_bytes(strings: Seq<String>) -> Seq<Seq<u8>> {
    strings.map_values(|s: String| encode_utf8(s@))
}

/// The UTF-8 bytes of each string, in order.
pub fn string_vec_to_byte_vecs(strings: &Vec<String>) -> (r: Vec<Vec<u8>>)
    ensures
        r@.map_values(|b: Vec<u8>| b@) == strings_as_bytes(strings@),
{
    let mut byte_vecs: Vec<Vec<u8>> = Vec::new();
    let mut i: usize = 0;
    while i < strings.len()
        invariant
            i <= strings@.len(),
            byte_vecs@.map_values(|b: Vec<u8>| b@) =~= strings_as_bytes(strings@.take(i as int)),
        decreases strings@.len() - i,
    {
        let bytes = strings[i].as_str().as_bytes_vec();
        let ghost before = byte_vecs@;
        byte_vecs.push(bytes);
        proof {
            assert(byte_vecs@.map_values(|b: Vec<u8>| b@) =~= before.map_values(
                |b: Vec<u8>| b@,
            ).push(bytes@));
            assert(strings_as_bytes(strings@.take(i + 1)) =~= strings_as_bytes(
                strings@.take(i as int),
            ).push(encode_utf8(strings@[i as int]@)));
        }
        i += 1;
    }
    assert(strings@.take(i as int) =~= strings@);
    byte_vecs
}

/// The shape of a tensor with one element.
pub open spec fn scalar_shape() -> Seq<i64> {
    seq![1i64, 1i64]
}

/// How many tokens to generate at most: what the request says, else what the
/// model's configuration says, else the ceiling.
pub open spec fn max_tokens_for(requested: Option<u32>, configured: Option<u32>) -> u32 {
    match requested {
        Some(n) => n,
        None => match configured {
            Some(n) => n,
            None => MAX_TOKENS,
        },
    }
}

/// The stop sequences of a request as byte strings: one for a single
/// sequence, one each for several.
pub open spec fn stop_words(stop: StopToken) -> Seq<Seq<u8>> {
    match stop {
        StopToken::String(s) => seq![encode_utf8(s@)],
        StopToken::Array(a) => strings_as_bytes(a@),
    }
}

/// `request` with one more input of one element, where there is one to add.
pub open spec fn with_optional(
    request: RequestView,
    name: Seq<char>,
    values: Option<TensorValues>,
) -> RequestView {
    match values {
        Some(v) => with_input(request, name, scalar_shape(), v),
        None => request,
    }
}

/// The inputs that every chat request has, and its output: the prompt, no
/// bad words, the token limit and the streaming flag.
pub open spec fn chat_request_base(
    request: ChatCompletionParameters,
    configured_max: Option<u32>,
) -> RequestView {
    let named = RequestView { model_name: request.model@, ..empty_request() };
    let prompt = with_input(
        named,
        "text_input"@,
        scalar_shape(),
        TensorValues::Bytes(seq![encode_utf8(chat_history(request.messages@))]),
    );
    let bad_words = with_input(
        prompt,
        "bad_words"@,
        scalar_shape(),
        TensorValues::Bytes(seq![Seq::<u8>::empty()]),
    );
    let max_tokens = with_input(
        bad_words,
        "max_tokens"@,
        scalar_shape(),
        TensorValues::Int32(seq![max_tokens_for(request.max_tokens, configured_max) as i32]),
    );
    let stream = with_input(
        max_tokens,
        "stream"@,
        scalar_shape(),
        TensorValues::Bool(seq![request.stream == Some(true)]),
    );
    with_output(stream, MODEL_OUTPUT_NAME@)
}

/// The inference request for a chat request: the inputs that every request
/// has and, in this order, one for each of the number of completions, the
/// presence penalty, the seed, the stop sequences, the temperature and the
/// nucleus sampling mass that the request gives. The stop sequences make a
/// row with one column each.
pub open spec fn chat_request(
    request: ChatCompletionParameters,
    configured_max: Option<u32>,
) -> RequestView {
    let base = chat_request_base(request, configured_max);
    let beam_width = with_optional(
        base,
        "beam_width"@,
        match request.n {
            Some(n) => Some(TensorValues::Int32(seq![n as i32])),
            None => None,
        },
    );
    let presence_penalty = with_optional(
        beam_width,
        "presence_penalty"@,
        match request.presence_penalty {
            Some(bits) => Some(TensorValues::FP32(seq![bits])),
            None => None,
        },
    );
    let random_seed = with_optional(
        presence_penalty,
        "random_seed"@,
        match request.seed {
            Some(seed) => Some(TensorValues::UInt64(seq![seed as u64])),
            None => None,
        },
    );
    let stop = match request.stop {
        Some(stop) => with_input(
            random_seed,
            "stop_words"@,
            seq![1i64, stop_words(stop).len() as i64],
            TensorValues::Bytes(stop_words(stop)),
        ),
        None => random_seed,
    };
    let temperature = with_optional(
        stop,
        "temperature"@,
        match request.temperature {
            Some(bits) => Some(TensorValues::FP32(seq![bits])),
            None => None,
        },
    );
    with_optional(
        temperature,
        "top_p"@,
        match request.top_p {
            Some(bits) => Some(TensorValues::FP32(seq![bits])),
            None => None,
        },
    )
}

/// Whether the numbers of a chat request fit the tensors that carry them:
/// the token limit and the number of completions a signed 32-bit integer,
/// the number of stop sequences a dimension.
pub open spec fn chat_numbers_fit(
    request: ChatCompletionParameters,
    configured_max: Option<u32>,
) -> bool {
    &&& max_tokens_for(request.max_tokens, configured_max) <= i32::MAX
    &&& request.n matches Some(n) ==> n <= i32::MAX
    &&& request.stop matches Some(stop) ==> stop_words(stop).len() <= i64::MAX
}

/// The names of the inputs differ from each other: in their length, or in
/// their first character.
pub(crate) proof fn lemma_input_names()
    ensures
        "text_input"@.len() == 10 && "text_input"@[0] == 't',
        "bad_words"@.len() == 9,
        "max_tokens"@.len() == 10 && "max_tokens"@[0] == 'm',
        "stream"@.len() == 6,
        "beam_width"@.len() == 10 && "beam_width"@[0] == 'b',
        "presence_penalty"@.len() == 16,
        "random_seed"@.len() == 11 && "random_seed"@[0] == 'r',
        "stop_words"@.len() == 10 && "stop_words"@[0] == 's',
        "temperature"@.len() == 11 && "temperature"@[0] == 't',
        "top_p"@.len() == 5,
{
    reveal_strlit("text_input");
    reveal_strlit("bad_words");
    reveal_strlit("max_tokens");
    reveal_strlit("stream");
    reveal_strlit("beam_width");
    reveal_strlit("presence_penalty");
    reveal_strlit("random_seed");
    reveal_strlit("stop_words");
    reveal_strlit("temperature");
    reveal_strlit("top_p");
}

/// The message of the error for a number that does not fit where it goes.
pub open spec fn number_error_message() -> Seq<char> {
    "TryFromIntError(())"@
}

/// Whether `e` is the error for a number that does not fit where it goes.
pub open spec fn is_number_error(e: AiRouterError) -> bool {
    e matches AiRouterError::InternalServerError(m) && m@ == number_error_message()
}

/// The error for a number that does not fit where it goes.
pub fn number_error() -> (r: AiRouterError)
    ensures
        is_number_error(r),
{
    AiRouterError::InternalServerError("TryFromIntError(())".to_owned())
}

/// The inference request for a chat request: see [`chat_request`].
///
/// The prompt is held against the model's limit first, with `encoded` as
/// what the tokenizer made of the prompt (see
/// [`check_input_cc`](crate::request::check_input_cc)); then the numbers
/// must fit; last, the request must name a model.
pub fn build_triton_request(
    request: ChatCompletionParameters,
    request_data: &mut AiRouterRequestData,
    encoded: Option<usize>,
) -> (r: Result<ModelInferRequest, AiRouterError>)
    ensures
        r matches Ok(built) ==> is_valid_request(built@),
        final(request_data).max_input == old(request_data).max_input,
        final(request_data).max_tokens == old(request_data).max_tokens,
        final(request_data).original_model == old(request_data).original_model,
        final(request_data).tokenizer == old(request_data).tokenizer,
        final(request_data).prompt_tokens == guarded_count(*old(request_data), encoded),
        match r {
            Ok(built) => {
                &&& guard_passes(*old(request_data), encoded)
                &&& chat_numbers_fit(request, old(request_data).max_tokens)
                &&& request.model@.len() > 0
                &&& built@ == chat_request(request, old(request_data).max_tokens)
            },
            Err(e) => if !guard_passes(*old(request_data), encoded) {
                guard_failure(
                    *old(request_data),
                    encoded,
                    shown_model(old(request_data).original_model, request.model@),
                    e,
                )
            } else if !chat_numbers_fit(request, old(request_data).max_tokens) {
                is_number_error(e)
            } else {
                &&& request.model@.len() == 0
                &&& e matches AiRouterError::InternalServerError(m) && m@
                    == BuildError::NoModelName.message()
            },
        },
{
    let chat_history = build_chat_history(&request.messages);
    match check_input_cc(encoded, request.model.as_str(), request_data) {
        Err(e) => {
            return Err(e);
        },
        Ok(_) => {},
    }
    let max_tokens: u32 = match request.max_tokens {
        Some(n) => n,
        None => match request_data.max_tokens {
            Some(n) => n,
            None => MAX_TOKENS,
        },
    };
    if max_tokens > 0x7fff_ffff {
        return Err(number_error());
    }
    if let Some(n) = request.n {
        if n > 0x7fff_ffff {
            return Err(number_error());
        }
    }
    let stop: Option<Vec<Vec<u8>>> = match &request.stop {
        Some(StopToken::Array(a)) => Some(string_vec_to_byte_vecs(a)),
        Some(StopToken::String(s)) => {
            let mut words: Vec<Vec<u8>> = Vec::new();
            words.push(s.as_str().as_bytes_vec());
            assert(words@.map_values(|b: Vec<u8>| b@) =~= seq![encode_utf8(s@)]);
            Some(words)
        },
        None => None,
    };
    let columns: i64 = match &stop {
        Some(words) => match dimension(words.len()) {
            Some(d) => d,
            None => {
                return Err(number_error());
            },
        },
        None => 0,
    };
    proof {
        lemma_input_names();
        lemma_row_shape_fits(1);
    }
    let ghost none = Set::<Seq<char>>::empty();
    let builder = Builder::new().model_name(request.model.as_str());
    assert(!has_input(builder.request()->0, arbitrary())) by {
        assert(builder.request()->0.inputs =~= Seq::empty());
    }
    assert forall|other: Seq<char>| has_input(builder.request()->0, other) implies none.contains(
        other,
    ) by {
        assert(builder.request()->0.inputs.len() == 0);
    }
    let builder = add_input(
        builder,
        "text_input",
        row_shape(1),
        InferTensorData::one_bytes(chat_history.as_str().as_bytes_vec()),
        Ghost(none),
    );
    let ghost names = none.insert("text_input"@);
    let builder = add_input(
        builder,
        "bad_words",
        row_shape(1),
        InferTensorData::one_bytes(Vec::new()),
        Ghost(names),
    );
    let ghost names = names.insert("bad_words"@);
    let builder = add_input(
        builder,
        "max_tokens",
        row_shape(1),
        InferTensorData::one_int32(max_tokens as i32),
        Ghost(names),
    );
    let ghost names = names.insert("max_tokens"@);
    let streaming = match request.stream {
        Some(b) => b,
        None => false,
    };
    let builder = add_input(
        builder,
        "stream",
        row_shape(1),
        InferTensorData::one_bool(streaming),
        Ghost(names),
    );
    let ghost names = names.insert("stream"@);
    let mut builder = builder.output(MODEL_OUTPUT_NAME);
    assert(builder.request() == Some(chat_request_base(request, old(request_data).max_tokens)));
    let ghost mut names = names;
    if let Some(n) = request.n {
        builder =
        add_input(
            builder,
            "beam_width",
            row_shape(1),
            InferTensorData::one_int32(n as i32),
            Ghost(names),
        );
        proof {
            names = names.insert("beam_width"@);
        }
    }
    if let Some(bits) = request.presence_penalty {
        builder =
        add_input(
            builder,
            "presence_penalty",
            row_shape(1),
            InferTensorData::one_fp32(bits),
            Ghost(names),
        );
        proof {
            names = names.insert("presence_penalty"@);
        }
    }
    if let Some(seed) = request.seed {
        builder =
        add_input(
            builder,
            "random_seed",
            row_shape(1),
            InferTensorData::one_uint64(seed as u64),
            Ghost(names),
        );
        proof {
            names = names.insert("random_seed"@);
        }
    }
    if let Some(words) = stop {
        proof {
            lemma_row_shape_fits(columns);
        }
        builder =
        add_input(
            builder,
            "stop_words",
            row_shape(columns),
            InferTensorData::Bytes(words),
            Ghost(names),
        );
        proof {
            names = names.insert("stop_words"@);
        }
    }
    if let Some(bits) = request.temperature {
        builder =
        add_input(
            builder,
            "temperature",
            row_shape(1),
            InferTensorData::one_fp32(bits),
            Ghost(names),
        );
        proof {
            names = names.insert("temperature"@);
        }
    }
    if let Some(bits) = request.top_p {
        builder =
        add_input(builder, "top_p", row_shape(1), InferTensorData::one_fp32(bits), Ghost(names));
    }
    proof {
        builder.lemma_request_or_error();
    }
    match builder.build() {
        Ok(built) => Ok(built),
        Err(e) => Err(AiRouterError::InternalServerError(e.describe())),
    }
}

/// The time of creation as a chat completion carries it, where it fits.
pub fn creation_time(seconds: u64) -> (r: Result<u32, AiRouterError>)
    ensures
        match r {
            Ok(created) => created == seconds,
            Err(e) => seconds > u32::MAX && is_number_error(e),
        },
{
    if seconds > 0xffff_ffff {
        Err(number_error())
    } else {
        Ok(seconds as u32)
    }
}

/// The name under which a model is reported to the client.
pub fn model_shown(request_data: &AiRouterRequestData, model: &str) -> (r: String)
    ensures
        r@ == shown_model(request_data.original_model, model@),
{
    match &request_data.original_model {
        Some(name) => name.clone(),
        None => model.to_owned(),
    }
}

/// Whether `response` is the chat completion with these values: one choice,
/// the assistant's, with `text` as its content and a stop as its end.
pub open spec fn is_chat_completion(
    response: ChatCompletionResponse,
    id: Seq<char>,
    created: u32,
    model: Seq<char>,
    text: Seq<char>,
    usage: Usage,
) -> bool {
    &&& response.id@ == id
    &&& response.object@ == "chat.completion"@
    &&& response.created == created
    &&& response.model@ == model
    &&& response.usage == Some(usage)
    &&& response.choices@.len() == 1
    &&& response.choices@[0].index == Some(0u32)
    &&& response.choices@[0].finish_reason == Some(FinishReason::StopSequenceReached)
    &&& response.choices@[0].message.role == Role::Assistant
    &&& response.choices@[0].message.name is None
    &&& response.choices@[0].message.content matches ChatMessageContent::Text(content)
        && content@ == text
}

/// The chat completion for a response that has come in whole.
///
/// The texts of all messages, untrimmed and without end markers, make up the
/// content, in the order of the messages. The first message that carries no
/// text fails the completion; after that, a time of creation that does not
/// fit does.
pub fn assemble_chat_completion(
    parts: &Vec<ModelStreamInferResponse>,
    request_data: &AiRouterRequestData,
    model: &str,
    id: String,
    created: u64,
) -> (r: Result<ChatCompletionResponse, AiRouterError>)
    ensures
        match r {
            Ok(response) => {
                &&& collected_text(parts@, MODEL_OUTPUT_NAME@, TextStyle::Generated) is Some
                &&& created <= u32::MAX
                &&& is_chat_completion(
                    response,
                    id@,
                    created as u32,
                    shown_model(request_data.original_model, model@),
                    collected_text(parts@, MODEL_OUTPUT_NAME@, TextStyle::Generated)->0,
                    usage_of(request_data.prompt_tokens),
                )
            },
            Err(e) => if collected_text(parts@, MODEL_OUTPUT_NAME@, TextStyle::Generated) is None {
                is_collect_error(parts@, MODEL_OUTPUT_NAME@, TextStyle::Generated, e)
            } else {
                &&& created > u32::MAX
                &&& is_number_error(e)
            },
        },
{
    let content = match collect_text(parts, MODEL_OUTPUT_NAME, TextStyle::Generated) {
        Ok(content) => content,
        Err(e) => {
            return Err(e);
        },
    };
    let created = match creation_time(created) {
        Ok(created) => created,
        Err(e) => {
            return Err(e);
        },
    };
    let mut choices: Vec<ChatCompletionChoice> = Vec::new();
    choices.push(
        ChatCompletionChoice {
            index: Some(0),
            message: ChatMessage {
                role: Role::Assistant,
                content: ChatMessageContent::Text(content),
                name: None,
            },
            finish_reason: Some(FinishReason::StopSequenceReached),
        },
    );
    Ok(
        ChatCompletionResponse {
            id,
            object: "chat.completion".to_owned(),
            created,
            model: model_shown(request_data, model),
            choices,
            usage: Some(usage(request_data.prompt_tokens)),
        },
    )
}

/// The chat completion for a response that has come in whole, under a fresh
/// identifier: see [`assemble_chat_completion`].
pub fn chat_completions(
    parts: &Vec<ModelStreamInferResponse>,
    request_data: &AiRouterRequestData,
    model: &str,
    created: u64,
) -> (r: Result<ChatCompletionResponse, AiRouterError>)
    ensures
        match r {
            Ok(response) => {
                &&& collected_text(parts@, MODEL_OUTPUT_NAME@, TextStyle::Generated) is Some
                &&& created <= u32::MAX
                &&& exists|unique: Seq<char>|
                    unique.len() == 36 && is_chat_completion(
                        response,
                        completion_id_of(unique),
                        created as u32,
                        shown_model(request_data.original_model, model@),
                        collected_text(parts@, MODEL_OUTPUT_NAME@, TextStyle::Generated)->0,
                        usage_of(request_data.prompt_tokens),
                    )
            },
            Err(e) => if collected_text(parts@, MODEL_OUTPUT_NAME@, TextStyle::Generated) is None {
                is_collect_error(parts@, MODEL_OUTPUT_NAME@, TextStyle::Generated, e)
            } else {
                &&& created > u32::MAX
                &&& is_number_error(e)
            },
        },
{
    let id = new_completion_id();
    assemble_chat_completion(parts, request_data, model, id, created)
}

/// A streamed chat completion: what every chunk of it carries, and the state
/// of the reducer that makes its chunks.
#[derive(Debug)]
pub struct ChatStream {
    pub id: String,
    pub created: u32,
    pub model: String,
    pub decode: StreamDecodeState,
}

/// Whether `chunk` is the chunk of `stream` that adds `text`: one choice, the
/// assistant's, with `text` as what it adds and no end.
pub open spec fn is_delta_chunk(
    chunk: ChatCompletionChunkResponse,
    stream: ChatStream,
    text: Seq<char>,
) -> bool {
    &&& chunk.id@ == stream.id@
    &&& chunk.object@ == "chat.completion.chunk"@
    &&& chunk.created == stream.created
    &&& chunk.model@ == stream.model@
    &&& chunk.choices@.len() == 1
    &&& chunk.choices@[0].index == Some(0u32)
    &&& chunk.choices@[0].finish_reason is None
    &&& chunk.choices@[0].delta.role == Some(Role::Assistant)
    &&& chunk.choices@[0].delta.content matches Some(content) && content@ == text
}

/// Whether `chunk` is the last chunk of `stream`: one choice that adds
/// nothing and ends with a stop.
pub open spec fn is_final_chunk(chunk: ChatCompletionChunkResponse, stream: ChatStream) -> bool {
    &&& chunk.id@ == stream.id@
    &&& chunk.object@ == "chat.completion.chunk"@
    &&& chunk.created == stream.created
    &&& chunk.model@ == stream.model@
    &&& chunk.choices@.len() == 1
    &&& chunk.choices@[0].index == Some(0u32)
    &&& chunk.choices@[0].finish_reason == Some(FinishReason::StopSequenceReached)
    &&& chunk.choices@[0].delta.role is None
    &&& chunk.choices@[0].delta.content is None
}

/// Whether `events` are the events that `stream` sends for a step of its
/// reducer: one chunk for an addition, one error event for a failure of the
/// backend and for a missing output, and none otherwise.
pub open spec fn are_step_events(
    events: Seq<StreamEvent<ChatCompletionChunkResponse>>,
    stream: ChatStream,
    step: StepView,
) -> bool {
    match step {
        StepView::Delta(text) => events.len() == 1 && (events[0] matches StreamEvent::Chunk(chunk)
            && is_delta_chunk(chunk, stream, text)),
        StepView::BackendError => events.len() == 1 && events[0] is BackendError,
        StepView::OutputMissing => events.len() == 1 && (events[0] matches StreamEvent::Error(
            message,
        ) && message@ == output_missing_message(MODEL_OUTPUT_NAME@)),
        _ => events.len() == 0,
    }
}

/// Whether `events` are the events that `stream` sends at the end of the
/// backend's stream: the last chunk and, behind it, the sentinel, for a
/// stream that was running; none for one that had failed or ended.
pub open spec fn are_end_events(
    events: Seq<StreamEvent<ChatCompletionChunkResponse>>,
    stream: ChatStream,
) -> bool {
    if stream.decode.phase == StreamPhase::Streaming {
        &&& events.len() == 2
        &&& events[0] matches StreamEvent::Chunk(chunk) && is_final_chunk(chunk, stream)
        &&& events[1] is Done
    } else {
        events.len() == 0
    }
}

impl ChatStream {
    /// A stream that starts now, under the identifier `id`, for a request to
    /// `model`. A time of creation that does not fit a chunk fails it.
    pub fn with_id(id: String, created: u64, request_data: &AiRouterRequestData, model: &str) -> (r:
        Result<ChatStream, AiRouterError>)
        ensures
            match r {
                Ok(stream) => {
                    &&& stream.id == id
                    &&& stream.created == created
                    &&& stream.model@ == shown_model(request_data.original_model, model@)
                    &&& stream.decode@ == DecodeView {
                        phase: StreamPhase::Streaming,
                        previous: Seq::empty(),
                    }
                },
                Err(e) => created > u32::MAX && is_number_error(e),
            },
    {
        let created = match creation_time(created) {
            Ok(created) => created,
            Err(e) => {
                return Err(e);
            },
        };
        Ok(
            ChatStream {
                id,
                created,
                model: model_shown(request_data, model),
                decode: StreamDecodeState::new(),
            },
        )
    }

    /// A stream that starts now, under a fresh identifier: see
    /// [`ChatStream::with_id`].
    pub fn start(created: u64, request_data: &AiRouterRequestData, model: &str) -> (r: Result<
        ChatStream,
        AiRouterError,
    >)
        ensures
            match r {
                Ok(stream) => {
                    &&& exists|unique: Seq<char>|
                        unique.len() == 36 && stream.id@ == completion_id_of(unique)
                    &&& stream.created == created
                    &&& stream.model@ == shown_model(request_data.original_model, model@)
                    &&& stream.decode@ == DecodeView {
                        phase: StreamPhase::Streaming,
                        previous: Seq::empty(),
                    }
                },
                Err(e) => created > u32::MAX && is_number_error(e),
            },
    {
        ChatStream::with_id(new_completion_id(), created, request_data, model)
    }

    fn chunk(&self, delta: DeltaChatMessage, finish_reason: Option<FinishReason>) -> (r:
        ChatCompletionChunkResponse)
        ensures
            r.id@ == self.id@,
            r.object@ == "chat.completion.chunk"@,
            r.created == self.created,
            r.model@ == self.model@,
            r.choices@.len() == 1,
            r.choices@[0].index == Some(0u32),
            r.choices@[0].finish_reason == finish_reason,
            r.choices@[0].delta == delta,
    {
        let mut choices: Vec<ChatCompletionChunkChoice> = Vec::new();
        choices.push(ChatCompletionChunkChoice { index: Some(0), delta, finish_reason });
        ChatCompletionChunkResponse {
            id: self.id.clone(),
            object: "chat.completion.chunk".to_owned(),
            created: self.created,
            model: self.model.clone(),
            choices,
        }
    }
}

/// Takes the next message of the backend's stream, or its end where
/// `message` is `None`, and returns the events to send for it, in order.
///
/// For a message, the reducer takes a step (see
/// [`stream_step`](crate::backend::triton::stream::stream_step)): an
/// addition is sent as a chunk, a failure of the backend and a missing
/// output as an error event, and a message that cannot be read fails the
/// stream with the error that says why. At the end of a stream that was
/// running, the last chunk goes out and then the sentinel. What every chunk
/// carries stays as it is.
pub fn chat_completions_stream(
    stream: &mut ChatStream,
    message: Option<&ModelStreamInferResponse>,
) -> (r: Result<Vec<StreamEvent<ChatCompletionChunkResponse>>, AiRouterError>)
    ensures
        final(stream).id == old(stream).id,
        final(stream).created == old(stream).created,
        final(stream).model == old(stream).model,
        match message {
            Some(part) => {
                let reading = text_reading(*part, MODEL_OUTPUT_NAME@, TextStyle::Generated);
                let (after, step) = stream_step(old(stream).decode@, reading);
                &&& final(stream).decode@ == after
                &&& match r {
                    Ok(events) => !(step is Failed) && are_step_events(events@, *old(stream), step),
                    Err(e) => step is Failed && is_reading_error(
                        reading,
                        *part,
                        MODEL_OUTPUT_NAME@,
                        e,
                    ),
                }
            },
            None => {
                &&& final(stream).decode@ == stream_end(old(stream).decode@)
                &&& r matches Ok(events) && are_end_events(events@, *old(stream))
            },
        },
{
    let mut events: Vec<StreamEvent<ChatCompletionChunkResponse>> = Vec::new();
    match message {
        Some(part) => match stream.decode.step(part, MODEL_OUTPUT_NAME) {
            StreamStep::Quiet => {},
            StreamStep::Delta(text) => {
                let chunk = stream.chunk(
                    DeltaChatMessage { role: Some(Role::Assistant), content: Some(text) },
                    None,
                );
                events.push(StreamEvent::Chunk(chunk));
            },
            StreamStep::BackendError => {
                events.push(StreamEvent::BackendError);
            },
            StreamStep::OutputMissing => {
                events.push(StreamEvent::Error(output_missing(MODEL_OUTPUT_NAME)));
            },
            StreamStep::Failed(e) => {
                return Err(e);
            },
        },
        None => {
            if stream.decode.finish() {
                let chunk = stream.chunk(
                    DeltaChatMessage { role: None, content: None },
                    Some(FinishReason::StopSequenceReached),
                );
                events.push(StreamEvent::Chunk(chunk));
                events.push(StreamEvent::Done);
            }
        },
    }
    Ok(events)
}

} // verus!
