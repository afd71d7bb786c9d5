//! The shapes of the OpenAI API that the router reads and writes.
//!
//! Numbers that the API gives as floating point are held as their IEEE-754
//! single-precision bit patterns.

use vstd::prelude::*;

verus! {

/// Who speaks in a turn of a conversation.
#[derive(Debug, Clone, Copy, PartialEq, Eq, Structural)]
pub enum Role {
    System,
    User,
    Assistant,
    Function,
    Tool,
}

/// What a turn says. Only text is read; anything else is `Other`.
#[derive(Debug)]
pub enum ChatMessageContent {
    Text(String),
    Other,
}

/// One turn of a conversation.
#[derive(Debug)]
pub struct ChatMessage {
    pub role: Role,
    pub content: ChatMessageContent,
    pub name: Option<String>,
}

/// Where generation stops: at one sequence or at any of several.
#[derive(Debug)]
pub enum StopToken {
    String(String),
    Array(Vec<String>),
}

/// The parameters of a chat completion request.
#[derive(Debug)]
pub struct ChatCompletionParameters {
    pub messages: Vec<ChatMessage>,
    pub model: String,
    pub max_tokens: Option<u32>,
    pub n: Option<u32>,
    /// Bit pattern of the presence penalty.
    pub presence_penalty: Option<u32>,
    pub seed: Option<u32>,
    pub stop: Option<StopToken>,
    pub stream: Option<bool>,
    /// Bit pattern of the sampling temperature.
    pub temperature: Option<u32>,
    /// Bit pattern of the nucleus sampling mass.
    pub top_p: Option<u32>,
}

/// Why generation stopped.
#[derive(Debug, Clone, Copy, PartialEq, Eq, Structural)]
pub enum FinishReason {
    StopSequenceReached,
    TokenLimitReached,
    ContentFilterFlagged,
    ToolCalls,
    EndTurn,
}

/// Token counts of a request.
#[derive(Debug, Clone, Copy, PartialEq, Eq, Structural)]
pub struct Usage {
    pub prompt_tokens: u32,
    pub completion_tokens: Option<u32>,
    pub total_tokens: u32,
}

/// One choice of a chat completion.
#[derive(Debug)]
pub struct ChatCompletionChoice {
    pub index: Option<u32>,
    pub message: ChatMessage,
    pub finish_reason: Option<FinishReason>,
}

/// A chat completion.
#[derive(Debug)]
pub struct ChatCompletionResponse {
    pub id: String,
    pub object: String,
    pub created: u32,
    pub model: String,
    pub choices: Vec<ChatCompletionChoice>,
    pub usage: Option<Usage>,
}

/// What a chunk of a streamed chat completion adds to the message.
#[derive(Debug)]
pub struct DeltaChatMessage {
    pub role: Option<Role>,
    pub content: Option<String>,
}

/// One choice of a chunk of a streamed chat completion.
#[derive(Debug)]
pub struct ChatCompletionChunkChoice {
    pub index: Option<u32>,
    pub delta: DeltaChatMessage,
    pub finish_reason: Option<FinishReason>,
}

/// A chunk of a streamed chat completion.
#[derive(Debug)]
pub struct ChatCompletionChunkResponse {
    pub id: String,
    pub object: String,
    pub created: u32,
    pub model: String,
    pub choices: Vec<ChatCompletionChunkChoice>,
}

/// One event of a streamed response, in the order in which it is sent.
#[derive(Debug)]
pub enum StreamEvent<C> {
    /// A chunk of the completion.
    Chunk(C),
    /// The backend failed: an event named `error`, with status 500.
    BackendError,
    /// The response could not be used: an event that carries the reason.
    Error(String),
    /// The sentinel that ends the stream: `[DONE]`.
    Done,
}

/// The form in which synthesized speech is wanted.
#[derive(Debug, Clone, Copy, PartialEq, Eq, Structural)]
pub enum AudioSpeechResponseFormat {
    Mp3,
    Opus,
    Aac,
    Flac,
    Wav,
    Pcm,
}

/// The content type of speech in a format; MP3 where none is asked for.
pub open spec fn speech_content_type_of(format: Option<AudioSpeechResponseFormat>) -> Seq<char> {
    match format {
        Some(AudioSpeechResponseFormat::Aac) => "audio/aac"@,
        Some(AudioSpeechResponseFormat::Flac) => "audio/flac"@,
        Some(AudioSpeechResponseFormat::Mp3) => "audio/mpeg"@,
        Some(AudioSpeechResponseFormat::Opus) => "audio/opus"@,
        Some(AudioSpeechResponseFormat::Pcm) => "audio/pcm"@,
        Some(AudioSpeechResponseFormat::Wav) => "audio/wav"@,
        None => "audio/mpeg"@,
    }
}

/// The content type under which synthesized speech is sent: see
/// [`speech_content_type_of`].
pub fn speech_content_type(format: Option<AudioSpeechResponseFormat>) -> (r: &'static str)
    ensures
        r@ == speech_content_type_of(format),
{
    match format {
        Some(AudioSpeechResponseFormat::Aac) => "audio/aac",
        Some(AudioSpeechResponseFormat::Flac) => "audio/flac",
        Some(AudioSpeechResponseFormat::Mp3) => "audio/mpeg",
        Some(AudioSpeechResponseFormat::Opus) => "audio/opus",
        Some(AudioSpeechResponseFormat::Pcm) => "audio/pcm",
        Some(AudioSpeechResponseFormat::Wav) => "audio/wav",
        None => "audio/mpeg",
    }
}

/// The form in which a transcription is wanted.
#[derive(Debug, Clone, Copy, PartialEq, Eq, Structural)]
pub enum AudioOutputFormat {
    Json,
    Text,
    Srt,
    VerboseJson,
    Vtt,
}

/// The audio to transcribe: its bytes under a file name, or a path.
#[derive(Debug)]
pub enum AudioTranscriptionFile {
    Bytes(AudioTranscriptionBytes),
    File(String),
}

/// Audio as bytes, with the name of the file they came from.
#[derive(Debug)]
pub struct AudioTranscriptionBytes {
    pub bytes: Vec<u8>,
    pub filename: String,
}

/// What to embed: one text or several, or tokens in place of text.
#[derive(Debug)]
pub enum EmbeddingInput {
    String(String),
    StringArray(Vec<String>),
    IntegerArray(Vec<u32>),
    IntegerArrayArray(Vec<Vec<u32>>),
}

/// The input of an embedding request for `texts`: the text itself where
/// there is exactly one, and the array otherwise.
pub fn transform_input(input: Vec<String>) -> (r: EmbeddingInput)
    ensures
        match r {
            EmbeddingInput::String(text) => input@.len() == 1 && text@ == input@[0]@,
            EmbeddingInput::StringArray(texts) => input@.len() != 1 && texts == input,
            _ => false,
        },
{
    if input.len() == 1 {
        EmbeddingInput::String(input[0].clone())
    } else {
        EmbeddingInput::StringArray(input)
    }
}

/// The parameters of an embedding request.
#[derive(Debug)]
pub struct EmbeddingParameters {
    pub input: EmbeddingInput,
    pub model: String,
}

/// One embedding: its position among those of the request and its vector,
/// each component as a single-precision bit pattern.
#[derive(Debug)]
pub struct Embedding {
    pub index: u32,
    pub embedding: Vec<u32>,
    pub object: String,
}

/// The embeddings of a request.
#[derive(Debug)]
pub struct EmbeddingResponse {
    pub object: String,
    pub data: Vec<Embedding>,
    pub model: String,
    pub usage: Option<Usage>,
}

/// The usage block of a response: the prompt's tokens as counted, and no
/// tokens of the completion, which the backend does not report. A count
/// that does not fit the block is given as 0.
pub open spec fn usage_of(prompt_tokens: usize) -> Usage {
    let shown: u32 = if prompt_tokens <= u32::MAX {
        prompt_tokens as u32
    } else {
        0
    };
    Usage { prompt_tokens: shown, completion_tokens: Some(0u32), total_tokens: shown }
}

/// The usage block of a response: see [`usage_of`].
pub fn usage(prompt_tokens: usize) -> (r: Usage)
    ensures
        r == usage_of(prompt_tokens),
{
    let shown: u32 = if prompt_tokens <= u32::MAX as usize {
        prompt_tokens as u32
    } else {
        0
    };
    Usage { prompt_tokens: shown, completion_tokens: Some(0), total_tokens: shown }
}

} // verus!
