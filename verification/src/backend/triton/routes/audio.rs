//! Audio transcriptions.
//!
//! The backend takes audio as one channel of single-precision samples at
//! 16 kHz, in whole blocks of ten seconds. Samples are held as their bit
//! patterns; silence is the pattern 0.

use super::chat::{is_number_error, number_error, scalar_shape};
use crate::backend::triton::request::{
    add_input, dimension, empty_request, has_input, is_valid_request, lemma_row_shape_fits,
    row_shape, with_input, with_output, BuildError, Builder, InferTensorData, TensorValues,
};
use crate::backend::triton::response::TextStyle;
use crate::backend::triton::stream::{collect_text, collected_text, is_collect_error};
use crate::backend::triton::{ModelInferRequest, ModelStreamInferResponse, RequestView};
use crate::errors::AiRouterError;
use crate::openai::{AudioOutputFormat, AudioTranscriptionFile};
use crate::text::{str_eq, trim_start, trimmed_start};
use crate::utils::{file_extension, get_file_extension, no_extension_message};
use vstd::prelude::*;
use vstd::string::*;
use vstd::utf8::*;

verus! {

/// The name of the output that carries the transcript.
pub const MODEL_OUTPUT_NAME: &'static str = "TRANSCRIPTS";

/// How many samples make a block.
pub const BLOCK_SAMPLES: usize = 160_000;

/// The message of the error for audio in a file with that extension.
pub open spec fn extension_unsupported_message(extension: Seq<char>) -> Seq<char> {
    "extension \""@ + extension + "\" not supported to Triton backend"@
}

/// The message of the error for audio given as a path.
pub open spec fn file_variant_message() -> Seq<char> {
    "`AudioTranscriptionFile::File` variant not supported"@
}

/// Whether audio can go to the backend as it came: only as the bytes of a
/// file whose name ends in `.wav`.
pub fn check_audio_file(file: &AudioTranscriptionFile) -> (r: Result<(), AiRouterError>)
    ensures
        r is Ok <==> (file matches AudioTranscriptionFile::Bytes(b) && file_extension(b.filename@)
            == Some("wav"@)),
        r matches Err(e) ==> (e matches AiRouterError::InternalServerError(m) && m@ == match file {
            AudioTranscriptionFile::File(_) => file_variant_message(),
            AudioTranscriptionFile::Bytes(b) => match file_extension(b.filename@) {
                None => no_extension_message(b.filename@),
                Some(extension) => extension_unsupported_message(extension),
            },
        }),
{
    match file {
        AudioTranscriptionFile::Bytes(b) => {
            let extension = match get_file_extension(b.filename.as_str()) {
                Ok(extension) => extension,
                Err(e) => {
                    return Err(e);
                },
            };
            if !str_eq(extension.as_str(), "wav") {
                let mut message = String::new();
                message.append("extension \"");
                message.append(extension.as_str());
                message.append("\" not supported to Triton backend");
                assert(message@ =~= extension_unsupported_message(extension@));
                return Err(AiRouterError::InternalServerError(message));
            }
            Ok(())
        },
        AudioTranscriptionFile::File(_) => Err(
            AiRouterError::InternalServerError(
                "`AudioTranscriptionFile::File` variant not supported".to_owned(),
            ),
        ),
    }
}

/// Whether audio with that many channels can be mixed down: one to eight
/// channels can.
pub fn check_channel_count(n_channels: u16) -> (r: Result<(), AiRouterError>)
    ensures
        r is Ok <==> 1 <= n_channels <= 8,
        r matches Err(e) ==> (e matches AiRouterError::BadRequestError(m) && m@
            == "audio with > 8 channels not supported"@),
{
    if 1 <= n_channels && n_channels <= 8 {
        Ok(())
    } else {
        Err(AiRouterError::BadRequestError("audio with > 8 channels not supported".to_owned()))
    }
}

/// How many samples `n` samples are padded to: the next multiple of a block
/// above `n`, so that at least one sample of silence follows.
pub open spec fn padded_count(n: nat) -> nat {
    (n + (BLOCK_SAMPLES - n % (BLOCK_SAMPLES as nat))) as nat
}

/// The padded count is a multiple of a block, above `n` and at most a block
/// above it.
pub proof fn lemma_padded_count(n: nat)
    ensures
        padded_count(n) % (BLOCK_SAMPLES as nat) == 0,
        n < padded_count(n) <= n + BLOCK_SAMPLES,
{
    let block = BLOCK_SAMPLES as int;
    let whole = n as int / block;
    assert(n as int == block * whole + n as int % block) by (nonlinear_arith)
        requires
            block == 160_000,
            whole == n as int / block,
    ;
    assert((block * (whole + 1)) % block == 0) by (nonlinear_arith)
        requires
            block == 160_000,
    ;
    assert(padded_count(n) as int == block * (whole + 1)) by (nonlinear_arith)
        requires
            padded_count(n) as int == n as int + (block - n as int % block),
            n as int == block * whole + n as int % block,
    ;
}

/// `samples` with silence behind them up to the padded count. Samples whose
/// padded count is no dimension, or no length on this machine, are refused.
pub fn pad_samples(samples: Vec<u32>) -> (r: Result<Vec<u32>, AiRouterError>)
    ensures
        match r {
            Ok(padded) => {
                &&& padded_count(samples@.len()) <= i64::MAX
                &&& padded@.len() == padded_count(samples@.len())
                &&& padded@.take(samples@.len() as int) == samples@
                &&& forall|i: int| samples@.len() <= i < padded@.len() ==> padded@[i] == 0
            },
            Err(e) => (padded_count(samples@.len()) > i64::MAX || padded_count(samples@.len())
                > usize::MAX) && is_number_error(e),
        },
{
    let n = samples.len();
    let padding: usize = BLOCK_SAMPLES - n % BLOCK_SAMPLES;
    if n > usize::MAX - padding {
        return Err(number_error());
    }
    if dimension(n + padding).is_none() {
        return Err(number_error());
    }
    let mut padded = samples;
    let mut k: usize = 0;
    while k < padding
        invariant
            k <= padding,
            n + padding <= usize::MAX,
            padded@.len() == n + k,
            padded@.take(n as int) == samples@,
            forall|i: int| n <= i < padded@.len() ==> padded@[i] == 0,
        decreases padding - k,
    {
        padded.push(0);
        assert(padded@.take(n as int) =~= samples@);
        k += 1;
    }
    Ok(padded)
}

/// `samples` with silence behind them up to the padded count.
pub open spec fn padded_samples(samples: Seq<u32>) -> Seq<u32> {
    Seq::new(
        padded_count(samples.len()),
        |i: int|
            if i < samples.len() {
                samples[i]
            } else {
                0u32
            },
    )
}

/// The inference request for a transcription: the text that the transcript
/// is to begin with, the padded samples as one row, and the output that
/// carries the transcript.
pub open spec fn transcription_request(
    model: Seq<char>,
    text_prefix: Seq<char>,
    samples: Seq<u32>,
) -> RequestView {
    let named = RequestView { model_name: model, ..empty_request() };
    let prefix = with_input(
        named,
        "TEXT_PREFIX"@,
        scalar_shape(),
        TensorValues::Bytes(seq![encode_utf8(text_prefix)]),
    );
    let wav = with_input(
        prefix,
        "WAV"@,
        seq![1i64, padded_count(samples.len()) as i64],
        TensorValues::FP32(padded_samples(samples)),
    );
    with_output(wav, MODEL_OUTPUT_NAME@)
}

/// The inference request for a transcription: see
/// [`transcription_request`].
///
/// `samples` are the samples of the audio as the backend takes them, one
/// channel at 16 kHz, and `text_prefix` is what the templates rendered for
/// the transcript's language. Samples that cannot be padded are refused;
/// after that, the request must name a model.
pub fn build_triton_request(model: &str, text_prefix: &str, samples: Vec<u32>) -> (r: Result<
    ModelInferRequest,
    AiRouterError,
>)
    ensures
        r matches Ok(built) ==> is_valid_request(built@),
        match r {
            Ok(built) => {
                &&& padded_count(samples@.len()) <= i64::MAX
                &&& model@.len() > 0
                &&& built@ == transcription_request(model@, text_prefix@, samples@)
            },
            Err(e) => if padded_count(samples@.len()) > i64::MAX || padded_count(samples@.len())
                > usize::MAX {
                is_number_error(e)
            } else {
                &&& model@.len() == 0
                &&& e matches AiRouterError::InternalServerError(m) && m@
                    == BuildError::NoModelName.message()
            },
        },
{
    let audio = match pad_samples(samples) {
        Ok(audio) => audio,
        Err(e) => {
            return Err(e);
        },
    };
    let columns: i64 = match dimension(audio.len()) {
        Some(columns) => columns,
        None => {
            return Err(number_error());
        },
    };
    proof {
        reveal_strlit("TEXT_PREFIX");
        reveal_strlit("WAV");
        assert("TEXT_PREFIX"@.len() == 11);
        assert("WAV"@.len() == 3);
        lemma_row_shape_fits(1);
        lemma_row_shape_fits(columns);
        assert(audio@ =~= padded_samples(samples@));
    }
    let ghost names = Set::<Seq<char>>::empty();
    let builder = Builder::new().model_name(model);
    assert forall|other: Seq<char>| has_input(builder.request()->0, other) implies names.contains(
        other,
    ) by {
        assert(builder.request()->0.inputs.len() == 0);
    }
    let builder = add_input(
        builder,
        "TEXT_PREFIX",
        row_shape(1),
        InferTensorData::one_bytes(text_prefix.as_bytes_vec()),
        Ghost(names),
    );
    let ghost names = names.insert("TEXT_PREFIX"@);
    let builder = add_input(
        builder,
        "WAV",
        row_shape(columns),
        InferTensorData::FP32(audio),
        Ghost(names),
    );
    let builder = builder.output(MODEL_OUTPUT_NAME);
    proof {
        builder.lemma_request_or_error();
    }
    match builder.build() {
        Ok(built) => Ok(built),
        Err(e) => Err(AiRouterError::InternalServerError(e.describe())),
    }
}

/// A transcript in the form asked for.
#[derive(Debug)]
pub enum Transcription {
    /// The transcript as the `text` of a JSON object.
    Json(AudioTranscriptionResponse),
    /// The transcript as plain text.
    Text(String),
}

/// The JSON object that carries a transcript.
#[derive(Debug)]
pub struct AudioTranscriptionResponse {
    pub text: String,
}

/// Whether a transcript in that form goes out as a JSON object: it does for
/// the two JSON formats and where no format is asked for.
pub open spec fn wants_json(response_format: Option<AudioOutputFormat>) -> bool {
    match response_format {
        None => true,
        Some(AudioOutputFormat::Json) => true,
        Some(AudioOutputFormat::VerboseJson) => true,
        Some(_) => false,
    }
}

/// The transcript of a response that has come in whole: the strings of all
/// messages as they are, in order, without the white space that the whole
/// begins with, in the form that `response_format` asks for. The first
/// message that carries no text fails the transcription.
pub fn transcriptions(
    parts: &Vec<ModelStreamInferResponse>,
    response_format: Option<AudioOutputFormat>,
) -> (r: Result<Transcription, AiRouterError>)
    ensures
        match r {
            Ok(transcription) => {
                &&& collected_text(parts@, MODEL_OUTPUT_NAME@, TextStyle::Verbatim) matches Some(
                    text,
                ) && match transcription {
                    Transcription::Json(response) => wants_json(response_format) && response.text@
                        == trimmed_start(text),
                    Transcription::Text(plain) => !wants_json(response_format) && plain@
                        == trimmed_start(text),
                }
            },
            Err(e) => collected_text(parts@, MODEL_OUTPUT_NAME@, TextStyle::Verbatim) is None
                && is_collect_error(parts@, MODEL_OUTPUT_NAME@, TextStyle::Verbatim, e),
        },
{
    let data = match collect_text(parts, MODEL_OUTPUT_NAME, TextStyle::Verbatim) {
        Ok(data) => data,
        Err(e) => {
            return Err(e);
        },
    };
    let response = trim_start(data.as_str());
    match response_format {
        None | Some(AudioOutputFormat::Json) | Some(AudioOutputFormat::VerboseJson) => Ok(
            Transcription::Json(AudioTranscriptionResponse { text: response }),
        ),
        Some(_) => Ok(Transcription::Text(response)),
    }
}

} // verus!
