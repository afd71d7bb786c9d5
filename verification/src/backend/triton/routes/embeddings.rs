//! Embeddings.

use super::chat::{
    is_number_error, model_shown, number_error, string_vec_to_byte_vecs, strings_as_bytes,
};
use crate::backend::triton::request::{
    add_input, dimension, empty_request, has_input, is_valid_request, lemma_column_shape_fits,
    with_input, with_output, BuildError, Builder, InferTensorData, TensorValues,
};
use crate::backend::triton::response::{output_reading, read_output, TextStyle};
use crate::backend::triton::stream::{failure_error, is_reading_error, text_reading};
use crate::backend::triton::{ModelInferRequest, ModelStreamInferResponse, RequestView};
use crate::errors::AiRouterError;
use crate::openai::{Embedding, EmbeddingInput, EmbeddingParameters, EmbeddingResponse, Usage};
use crate::request::{shown_model, AiRouterRequestData};
use vstd::bytes::{spec_u32_from_le_bytes, u32_from_le_bytes};
use vstd::prelude::*;
use vstd::slice::slice_subrange;
use vstd::string::*;
use vstd::utf8::*;

verus! {

/// The name of the output that carries the embeddings.
pub const MODEL_OUTPUT_NAME: &'static str = "embedding";

/// The 32-bit words that `bytes` holds in little-endian order, four bytes to
/// a word; bytes behind the last whole word belong to none.
pub open spec fn le_words(bytes: Seq<u8>) -> Seq<u32> {
    Seq::new(
        (bytes.len() / 4) as nat,
        |i: int| spec_u32_from_le_bytes(bytes.subrange(4 * i, 4 * i + 4)),
    )
}

/// `words` cut into `batch_size` runs of `dimensions` words each, in order.
pub open spec fn rows_of(words: Seq<u32>, batch_size: nat, dimensions: nat) -> Seq<Seq<u32>> {
    Seq::new(batch_size, |b: int| words.subrange(b * dimensions, (b + 1) * dimensions))
}

/// Reads a buffer as an array of single-precision numbers in little-endian
/// order and returns their bit patterns. A buffer whose length is no
/// multiple of four is no such array: it is refused, whole.
pub fn decode_fp32_array(input: &[u8]) -> (r: Option<Vec<u32>>)
    ensures
        match r {
            Some(words) => input@.len() % 4 == 0 && words@ == le_words(input@),
            None => input@.len() % 4 != 0,
        },
{
    if input.len() % 4 != 0 {
        return None;
    }
    let count = input.len() / 4;
    let mut words: Vec<u32> = Vec::new();
    let mut i: usize = 0;
    while i < count
        invariant
            i <= count,
            count == input@.len() / 4,
            input@.len() % 4 == 0,
            input@.len() <= usize::MAX,
            words@.len() == i,
            forall|k: int| 0 <= k < i ==> words@[k] == le_words(input@)[k],
        decreases count - i,
    {
        let word = u32_from_le_bytes(slice_subrange(input, 4 * i, 4 * i + 4));
        words.push(word);
        i += 1;
    }
    assert(words@ =~= le_words(input@));
    Some(words)
}

/// The message of the error for a buffer that does not hold the vectors
/// expected of it.
pub open spec fn size_error_message() -> Seq<char> {
    "size of embedding data does not match batch size and dimensions"@
}

proof fn lemma_row_bounds(b: int, batch_size: int, dimensions: int)
    requires
        0 <= b < batch_size,
        0 <= dimensions,
    ensures
        0 <= b * dimensions <= (b + 1) * dimensions <= batch_size * dimensions,
        (b + 1) * dimensions == b * dimensions + dimensions,
{
    assert(0 <= b * dimensions) by (nonlinear_arith)
        requires
            0 <= b,
            0 <= dimensions,
    ;
    assert((b + 1) * dimensions == b * dimensions + dimensions) by (nonlinear_arith);
    assert((b + 1) * dimensions <= batch_size * dimensions) by (nonlinear_arith)
        requires
            b + 1 <= batch_size,
            0 <= dimensions,
    ;
}

/// Cuts a buffer of single-precision numbers into `batch_size` vectors of
/// `dimensions` components each, in the order of the buffer, and returns the
/// components' bit patterns. The buffer must hold exactly these vectors:
/// four bytes for each component.
pub fn transform_triton_f32_array(input: &[u8], batch_size: usize, dimensions: usize) -> (r: Result<
    Vec<Vec<u32>>,
    AiRouterError,
>)
    ensures
        match r {
            Ok(rows) => {
                &&& input@.len() == batch_size * dimensions * 4
                &&& rows@.map_values(|row: Vec<u32>| row@) == rows_of(
                    le_words(input@),
                    batch_size as nat,
                    dimensions as nat,
                )
            },
            Err(e) => {
                &&& input@.len() != batch_size * dimensions * 4
                &&& e matches AiRouterError::InternalServerError(m) && m@ == size_error_message()
            },
        },
{
    let size_error = AiRouterError::InternalServerError(
        "size of embedding data does not match batch size and dimensions".to_owned(),
    );
    let words = match decode_fp32_array(input) {
        Some(words) => words,
        None => {
            assert(input@.len() != batch_size * dimensions * 4) by (nonlinear_arith)
                requires
                    input@.len() % 4 != 0,
            ;
            return Err(size_error);
        },
    };
    if dimensions == 0 {
        assert(batch_size * dimensions * 4 == 0) by (nonlinear_arith)
            requires
                dimensions == 0,
        ;
        if words.len() != 0 {
            return Err(size_error);
        }
    } else {
        if words.len() % dimensions != 0 || words.len() / dimensions != batch_size {
            assert(input@.len() != batch_size * dimensions * 4) by (nonlinear_arith)
                requires
                    input@.len() == 4 * words@.len(),
                    dimensions > 0,
                    words@.len() % (dimensions as nat) != 0 || words@.len() / (dimensions as nat)
                        != batch_size,
            ;
            return Err(size_error);
        }
        assert(words@.len() == batch_size * dimensions) by (nonlinear_arith)
            requires
                dimensions > 0,
                words@.len() % (dimensions as nat) == 0,
                words@.len() / (dimensions as nat) == batch_size,
        ;
    }
    assert(input@.len() == batch_size * dimensions * 4) by (nonlinear_arith)
        requires
            input@.len() == 4 * words@.len(),
            words@.len() == batch_size * dimensions,
    ;
    let mut output: Vec<Vec<u32>> = Vec::new();
    let mut b: usize = 0;
    while b < batch_size
        invariant
            b <= batch_size,
            words@.len() == batch_size * dimensions,
            words@.len() <= usize::MAX,
            words@ == le_words(input@),
            output@.len() == b,
            forall|k: int|
                0 <= k < b ==> (#[trigger] output@[k])@ == words@.subrange(
                    k * dimensions,
                    (k + 1) * dimensions,
                ),
        decreases batch_size - b,
    {
        proof {
            lemma_row_bounds(b as int, batch_size as int, dimensions as int);
        }
        let begin = b * dimensions;
        let mut row: Vec<u32> = Vec::new();
        let mut j: usize = 0;
        while j < dimensions
            invariant
                j <= dimensions,
                begin + dimensions <= words@.len() <= usize::MAX,
                row@ == words@.subrange(begin as int, begin + j),
            decreases dimensions - j,
        {
            row.push(words[begin + j]);
            assert(row@ =~= words@.subrange(begin as int, begin + j + 1));
            j += 1;
        }
        output.push(row);
        b += 1;
    }
    assert(output@.map_values(|row: Vec<u32>| row@) =~= rows_of(
        le_words(input@),
        batch_size as nat,
        dimensions as nat,
    ));
    Ok(output)
}

/// Whether `embedding` is the embedding at position `index` with the
/// components `components`.
pub open spec fn is_embedding(embedding: Embedding, index: int, components: Seq<u32>) -> bool {
    &&& embedding.index == index
    &&& embedding.embedding@ == components
    &&& embedding.object@ == "embedding"@
}

/// The embeddings for the vectors of `input`, each at the position of its
/// vector, counted from 0. More vectors than positions can be counted in 32
/// bits are refused.
pub fn build_embedding_response_data(input: &[Vec<u32>]) -> (r: Result<Vec<Embedding>, AiRouterError>)
    ensures
        match r {
            Ok(embeddings) => {
                &&& input@.len() <= u32::MAX + 1
                &&& embeddings@.len() == input@.len()
                &&& forall|i: int|
                    0 <= i < input@.len() ==> is_embedding(
                        #[trigger] embeddings@[i],
                        i,
                        input@[i]@,
                    )
            },
            Err(e) => input@.len() > u32::MAX + 1 && is_number_error(e),
        },
{
    let mut embeddings: Vec<Embedding> = Vec::new();
    let mut i: usize = 0;
    while i < input.len()
        invariant
            i <= input@.len(),
            i <= u32::MAX + 1,
            embeddings@.len() == i,
            forall|k: int| 0 <= k < i ==> is_embedding(#[trigger] embeddings@[k], k, input@[k]@),
        decreases input@.len() - i,
    {
        if i as u64 > 0xffff_ffff {
            return Err(number_error());
        }
        let embedding = Embedding {
            index: i as u32,
            embedding: input[i].clone(),
            object: "embedding".to_owned(),
        };
        embeddings.push(embedding);
        i += 1;
    }
    Ok(embeddings)
}

/// How many texts a request gives to embed: as many as its array is long,
/// and one where it gives no array of texts or of token arrays.
pub fn batch_size(input: &EmbeddingInput) -> (r: usize)
    ensures
        r == match input {
            EmbeddingInput::StringArray(a) => a@.len(),
            EmbeddingInput::IntegerArrayArray(a) => a@.len(),
            _ => 1,
        },
{
    match input {
        EmbeddingInput::StringArray(a) => a.len(),
        EmbeddingInput::IntegerArrayArray(a) => a.len(),
        _ => 1,
    }
}

/// The texts to embed as byte strings; `None` for tokens, which the backend
/// does not take.
pub open spec fn embedding_texts(input: EmbeddingInput) -> Option<Seq<Seq<u8>>> {
    match input {
        EmbeddingInput::String(s) => Some(seq![encode_utf8(s@)]),
        EmbeddingInput::StringArray(a) => Some(strings_as_bytes(a@)),
        _ => None,
    }
}

/// The inference request for `texts`: one input, a column with a row for
/// each text, and the output that carries the embeddings.
pub open spec fn embedding_request(model: Seq<char>, texts: Seq<Seq<u8>>) -> RequestView {
    let named = RequestView { model_name: model, ..empty_request() };
    let text = with_input(
        named,
        "text"@,
        seq![texts.len() as i64, 1i64],
        TensorValues::Bytes(texts),
    );
    with_output(text, MODEL_OUTPUT_NAME@)
}

/// The message of the error for a request that gives tokens to embed.
pub open spec fn tokens_unsupported_message() -> Seq<char> {
    "embedding of token arrays is not supported by the Triton backend"@
}

/// The inference request for an embedding request: see
/// [`embedding_request`]. Tokens in place of text are refused as a bad
/// request; then the number of texts must fit a dimension; last, the request
/// must name a model.
pub fn build_triton_request(request: EmbeddingParameters) -> (r: Result<
    ModelInferRequest,
    AiRouterError,
>)
    ensures
        r matches Ok(built) ==> is_valid_request(built@),
        match r {
            Ok(built) => {
                &&& embedding_texts(request.input) matches Some(texts) && texts.len() <= i64::MAX
                    && built@ == embedding_request(request.model@, texts)
                &&& request.model@.len() > 0
            },
            Err(e) => match embedding_texts(request.input) {
                None => e matches AiRouterError::BadRequestError(m) && m@
                    == tokens_unsupported_message(),
                Some(texts) => if texts.len() > i64::MAX {
                    is_number_error(e)
                } else {
                    &&& request.model@.len() == 0
                    &&& e matches AiRouterError::InternalServerError(m) && m@
                        == BuildError::NoModelName.message()
                },
            },
        },
{
    let texts: Vec<Vec<u8>> = match &request.input {
        EmbeddingInput::String(s) => {
            let mut texts: Vec<Vec<u8>> = Vec::new();
            texts.push(s.as_str().as_bytes_vec());
            assert(texts@.map_values(|b: Vec<u8>| b@) =~= seq![encode_utf8(s@)]);
            texts
        },
        EmbeddingInput::StringArray(a) => string_vec_to_byte_vecs(a),
        _ => {
            return Err(
                AiRouterError::BadRequestError(
                    "embedding of token arrays is not supported by the Triton backend".to_owned(),
                ),
            );
        },
    };
    let rows: i64 = match dimension(texts.len()) {
        Some(d) => d,
        None => {
            return Err(number_error());
        },
    };
    let mut shape: Vec<i64> = Vec::new();
    shape.push(rows);
    shape.push(1);
    proof {
        assert(shape@ =~= seq![rows, 1i64]);
        lemma_column_shape_fits(rows);
    }
    let ghost names = Set::<Seq<char>>::empty();
    let builder = Builder::new().model_name(request.model.as_str());
    assert forall|other: Seq<char>| has_input(builder.request()->0, other) implies names.contains(
        other,
    ) by {
        assert(builder.request()->0.inputs.len() == 0);
    }
    let builder = add_input(builder, "text", shape, InferTensorData::Bytes(texts), Ghost(names));
    let builder = builder.output(MODEL_OUTPUT_NAME);
    proof {
        builder.lemma_request_or_error();
    }
    match builder.build() {
        Ok(built) => Ok(built),
        Err(e) => Err(AiRouterError::InternalServerError(e.describe())),
    }
}

/// Why a message of the response stream adds nothing to the embeddings.
#[derive(Debug, Clone, Copy, PartialEq, Eq, Structural)]
pub enum EmbeddingFailure {
    /// The message holds no payload for the output.
    Unreadable,
    /// The shape of the output lacks the batch size or the dimensions.
    ShapeMissing,
    /// The batch size or the dimensions are no size.
    BadNumber,
    /// The batch size is not that of the request.
    BatchMismatch,
}

/// Whether `value` is a size on this machine.
pub open spec fn is_size(value: i64) -> bool {
    0 <= value <= usize::MAX
}

/// What a message adds to the embeddings of a request for `batch_size`
/// texts: the dimensions of its vectors and its raw bytes. The shape of the
/// output gives the batch size first, which must be that of the request,
/// and the dimensions second.
pub open spec fn embedding_part(part: ModelStreamInferResponse, batch_size: usize) -> Result<
    (usize, Seq<u8>),
    EmbeddingFailure,
> {
    match output_reading(part, MODEL_OUTPUT_NAME@) {
        Err(_) => Err(EmbeddingFailure::Unreadable),
        Ok(idx) => {
            let response = part.infer_response->0;
            let shape = response.outputs@[idx as int].shape@;
            if shape.len() < 1 {
                Err(EmbeddingFailure::ShapeMissing)
            } else if !is_size(shape[0]) {
                Err(EmbeddingFailure::BadNumber)
            } else if shape[0] != batch_size {
                Err(EmbeddingFailure::BatchMismatch)
            } else if shape.len() < 2 {
                Err(EmbeddingFailure::ShapeMissing)
            } else if !is_size(shape[1]) {
                Err(EmbeddingFailure::BadNumber)
            } else {
                Ok((shape[1] as usize, response.raw_output_contents@[idx as int]@))
            }
        },
    }
}

/// The message of the error for a shape without batch size or dimensions.
pub open spec fn shape_missing_message() -> Seq<char> {
    "shape of embedding in Triton response lacks batch size or dimensions"@
}

/// The message of the error for a batch size that is not the request's.
pub open spec fn batch_mismatch_message() -> Seq<char> {
    "batch sizes of request and response differ"@
}

/// Whether `e` is the error for a message that adds nothing to the
/// embeddings, for the reason `failure`.
pub open spec fn is_part_error(
    failure: EmbeddingFailure,
    part: ModelStreamInferResponse,
    e: AiRouterError,
) -> bool {
    match failure {
        EmbeddingFailure::Unreadable => is_reading_error(
            text_reading(part, MODEL_OUTPUT_NAME@, TextStyle::Generated),
            part,
            MODEL_OUTPUT_NAME@,
            e,
        ),
        EmbeddingFailure::ShapeMissing => e matches AiRouterError::InternalServerError(m) && m@
            == shape_missing_message(),
        EmbeddingFailure::BadNumber => is_number_error(e),
        EmbeddingFailure::BatchMismatch => e matches AiRouterError::InternalServerError(m) && m@
            == batch_mismatch_message(),
    }
}

/// `value` as a size, where it is one.
fn size_of(value: i64) -> (r: Option<usize>)
    ensures
        match r {
            Some(size) => is_size(value) && size == value,
            None => !is_size(value),
        },
{
    if value < 0 || value as u64 > usize::MAX as u64 {
        None
    } else {
        Some(value as usize)
    }
}

/// What a message adds to the embeddings: see [`embedding_part`].
pub fn read_embedding_part<'a>(part: &'a ModelStreamInferResponse, batch_size: usize) -> (r: Result<
    (usize, &'a Vec<u8>),
    AiRouterError,
>)
    ensures
        match r {
            Ok((dimensions, raw)) => embedding_part(*part, batch_size) == Ok::<
                (usize, Seq<u8>),
                EmbeddingFailure,
            >((dimensions, raw@)),
            Err(e) => embedding_part(*part, batch_size) matches Err(failure) && is_part_error(
                failure,
                *part,
                e,
            ),
        },
{
    let (response, idx) = match read_output(part, MODEL_OUTPUT_NAME) {
        Ok(found) => found,
        Err(failure) => {
            return Err(failure_error(failure, part, MODEL_OUTPUT_NAME));
        },
    };
    let shape = &response.outputs[idx].shape;
    if shape.len() < 1 {
        return Err(
            AiRouterError::InternalServerError(
                "shape of embedding in Triton response lacks batch size or dimensions".to_owned(),
            ),
        );
    }
    let rows = match size_of(shape[0]) {
        Some(rows) => rows,
        None => {
            return Err(number_error());
        },
    };
    if rows != batch_size {
        return Err(
            AiRouterError::InternalServerError(
                "batch sizes of request and response differ".to_owned(),
            ),
        );
    }
    if shape.len() < 2 {
        return Err(
            AiRouterError::InternalServerError(
                "shape of embedding in Triton response lacks batch size or dimensions".to_owned(),
            ),
        );
    }
    match size_of(shape[1]) {
        Some(dimensions) => Ok((dimensions, &response.raw_output_contents[idx])),
        None => Err(number_error()),
    }
}

/// The dimensions that the last of `parts` gives, 0 where there is no part,
/// and the raw bytes of all of them, in order; `None` where a part adds
/// nothing.
pub open spec fn gathered(parts: Seq<ModelStreamInferResponse>, batch_size: usize) -> Option<
    (usize, Seq<u8>),
>
    decreases parts.len(),
{
    if parts.len() == 0 {
        Some((0usize, Seq::empty()))
    } else {
        match (gathered(parts.drop_last(), batch_size), embedding_part(parts.last(), batch_size)) {
            (Some((_, head)), Ok((dimensions, raw))) => Some((dimensions, head + raw)),
            _ => None,
        }
    }
}

/// Whether `e` is the error for the first of `parts` that adds nothing.
pub open spec fn is_gather_error(
    parts: Seq<ModelStreamInferResponse>,
    batch_size: usize,
    e: AiRouterError,
) -> bool {
    exists|i: int|
        {
            &&& 0 <= i < parts.len()
            &&& gathered(parts.take(i), batch_size) is Some
            &&& embedding_part(#[trigger] parts[i], batch_size) matches Err(failure)
                && is_part_error(failure, parts[i], e)
        }
}

proof fn lemma_gathered_stops(parts: Seq<ModelStreamInferResponse>, batch_size: usize, n: int)
    requires
        0 <= n <= parts.len(),
        gathered(parts.take(n), batch_size) is None,
    ensures
        gathered(parts, batch_size) is None,
    decreases parts.len() - n,
{
    if n < parts.len() {
        assert(parts.take(n + 1).drop_last() =~= parts.take(n));
        lemma_gathered_stops(parts, batch_size, n + 1);
    } else {
        assert(parts.take(n) =~= parts);
    }
}

/// Whether `response` holds the embeddings `rows` for `model`, each at its
/// position, with a usage block of zeros.
pub open spec fn is_embedding_response(
    response: EmbeddingResponse,
    model: Seq<char>,
    rows: Seq<Seq<u32>>,
) -> bool {
    &&& response.object@ == "embedding"@
    &&& response.model@ == model
    &&& response.usage == Some(
        Usage { prompt_tokens: 0, completion_tokens: Some(0u32), total_tokens: 0 },
    )
    &&& response.data@.len() == rows.len()
    &&& forall|i: int| 0 <= i < rows.len() ==> is_embedding(#[trigger] response.data@[i], i, rows[i])
}

/// The embeddings of a request for `batch_size` texts, from a response that
/// has come in whole.
///
/// The raw bytes of all messages, in order, are cut into `batch_size`
/// vectors of as many dimensions as the last message gives. The first
/// message that adds nothing fails the request; then bytes that are not
/// exactly these vectors do; last, more vectors than can be counted in 32
/// bits.
pub fn embed(
    parts: &Vec<ModelStreamInferResponse>,
    batch_size: usize,
    request_data: &AiRouterRequestData,
    model: &str,
) -> (r: Result<EmbeddingResponse, AiRouterError>)
    ensures
        match r {
            Ok(response) => {
                &&& gathered(parts@, batch_size) matches Some((dimensions, bytes)) && bytes.len()
                    == batch_size * dimensions * 4 && is_embedding_response(
                    response,
                    shown_model(request_data.original_model, model@),
                    rows_of(le_words(bytes), batch_size as nat, dimensions as nat),
                )
                &&& batch_size <= u32::MAX + 1
            },
            Err(e) => match gathered(parts@, batch_size) {
                None => is_gather_error(parts@, batch_size, e),
                Some((dimensions, bytes)) => if bytes.len() != batch_size * dimensions * 4 {
                    e matches AiRouterError::InternalServerError(m) && m@ == size_error_message()
                } else {
                    batch_size > u32::MAX + 1 && is_number_error(e)
                },
            },
        },
{
    let mut dimensions: usize = 0;
    let mut data: Vec<u8> = Vec::new();
    let mut i: usize = 0;
    assert(parts@.take(0) =~= Seq::<ModelStreamInferResponse>::empty());
    while i < parts.len()
        invariant
            i <= parts@.len(),
            gathered(parts@.take(i as int), batch_size) == Some((dimensions, data@)),
        decreases parts@.len() - i,
    {
        proof {
            assert(parts@.take(i + 1).drop_last() =~= parts@.take(i as int));
            assert(parts@.take(i + 1).last() == parts@[i as int]);
        }
        match read_embedding_part(&parts[i], batch_size) {
            Ok((part_dimensions, raw)) => {
                dimensions = part_dimensions;
                let ghost before = data@;
                let mut k: usize = 0;
                while k < raw.len()
                    invariant
                        k <= raw@.len(),
                        data@ == before + raw@.take(k as int),
                    decreases raw@.len() - k,
                {
                    data.push(raw[k]);
                    assert(data@ =~= before + raw@.take(k + 1));
                    k += 1;
                }
                assert(raw@.take(k as int) =~= raw@);
            },
            Err(e) => {
                proof {
                    lemma_gathered_stops(parts@, batch_size, i + 1);
                }
                return Err(e);
            },
        }
        i += 1;
    }
    assert(parts@.take(i as int) =~= parts@);
    let rows = match transform_triton_f32_array(data.as_slice(), batch_size, dimensions) {
        Ok(rows) => rows,
        Err(e) => {
            return Err(e);
        },
    };
    proof {
        let expected = rows_of(le_words(data@), batch_size as nat, dimensions as nat);
        assert(rows@.map_values(|row: Vec<u32>| row@).len() == expected.len());
        assert(rows@.len() == batch_size);
    }
    let embeddings = match build_embedding_response_data(rows.as_slice()) {
        Ok(embeddings) => embeddings,
        Err(e) => {
            return Err(e);
        },
    };
    let response = EmbeddingResponse {
        object: "embedding".to_owned(),
        data: embeddings,
        model: model_shown(request_data, model),
        usage: Some(Usage { prompt_tokens: 0, completion_tokens: Some(0), total_tokens: 0 }),
    };
    proof {
        let expected = rows_of(le_words(data@), batch_size as nat, dimensions as nat);
        assert forall|i: int| 0 <= i < expected.len() implies is_embedding(
            #[trigger] response.data@[i],
            i,
            expected[i],
        ) by {
            assert(rows@.map_values(|row: Vec<u32>| row@)[i] == rows@[i]@);
            assert(is_embedding(embeddings@[i], i, rows@[i]@));
        }
        assert(is_embedding_response(
            response,
            shown_model(request_data.original_model, model@),
            expected,
        ));
    }
    Ok(response)
}

} // verus!
