//! Messages of the tensor-based inference protocol.

use vstd::prelude::*;

pub mod request;
pub mod response;
pub mod routes;
pub mod stream;
pub mod utils;

verus! {

/// The payload of a tensor. One field holds the elements, the one that
/// belongs to the tensor's element type; the others stay empty.
///
/// Floating-point elements are held as their IEEE-754 bit patterns: single
/// precision in 32 bits, double precision in 64.
#[derive(Debug)]
pub struct InferTensorContents {
    pub bool_contents: Vec<bool>,
    pub int_contents: Vec<i32>,
    pub int64_contents: Vec<i64>,
    pub uint_contents: Vec<u32>,
    pub uint64_contents: Vec<u64>,
    pub fp32_contents: Vec<u32>,
    pub fp64_contents: Vec<u64>,
    pub bytes_contents: Vec<Vec<u8>>,
}

/// One named input of an inference request.
#[derive(Debug)]
pub struct InferInputTensor {
    pub name: String,
    pub datatype: String,
    pub shape: Vec<i64>,
    pub contents: Option<InferTensorContents>,
}

/// One output that an inference request asks for.
#[derive(Debug)]
pub struct InferRequestedOutputTensor {
    pub name: String,
}

/// An inference request. An empty `model_version` selects the latest version
/// that the backend serves.
#[derive(Debug)]
pub struct ModelInferRequest {
    pub model_name: String,
    pub model_version: String,
    pub id: String,
    pub inputs: Vec<InferInputTensor>,
    pub outputs: Vec<InferRequestedOutputTensor>,
}

/// One tensor of an inference response: its name, element type and shape.
/// The raw payload travels beside it, at the same index of the response's
/// raw contents.
#[derive(Debug)]
pub struct InferOutputTensor {
    pub name: String,
    pub datatype: String,
    pub shape: Vec<i64>,
}

/// The tensors that the backend computed for one request.
#[derive(Debug)]
pub struct ModelInferResponse {
    pub model_name: String,
    pub model_version: String,
    pub id: String,
    pub outputs: Vec<InferOutputTensor>,
    pub raw_output_contents: Vec<Vec<u8>>,
}

/// One message of the backend's response stream: an error message, which is
/// empty unless the backend failed, and the response where there is one.
#[derive(Debug)]
pub struct ModelStreamInferResponse {
    pub error_message: String,
    pub infer_response: Option<ModelInferResponse>,
}

/// What a payload holds, field by field.
pub struct ContentsView {
    pub bool_contents: Seq<bool>,
    pub int_contents: Seq<i32>,
    pub int64_contents: Seq<i64>,
    pub uint_contents: Seq<u32>,
    pub uint64_contents: Seq<u64>,
    pub fp32_contents: Seq<u32>,
    pub fp64_contents: Seq<u64>,
    pub bytes_contents: Seq<Seq<u8>>,
}

/// What an input tensor holds.
pub struct InputView {
    pub name: Seq<char>,
    pub datatype: Seq<char>,
    pub shape: Seq<i64>,
    pub contents: Option<ContentsView>,
}

/// What an inference request holds.
pub struct RequestView {
    pub model_name: Seq<char>,
    pub model_version: Seq<char>,
    pub id: Seq<char>,
    pub inputs: Seq<InputView>,
    pub outputs: Seq<Seq<char>>,
}

impl View for InferTensorContents {
    type V = ContentsView;

    open spec fn view(&self) -> ContentsView {
        ContentsView {
            bool_contents: self.bool_contents@,
            int_contents: self.int_contents@,
            int64_contents: self.int64_contents@,
            uint_contents: self.uint_contents@,
            uint64_contents: self.uint64_contents@,
            fp32_contents: self.fp32_contents@,
            fp64_contents: self.fp64_contents@,
            bytes_contents: self.bytes_contents@.map_values(|b: Vec<u8>| b@),
        }
    }
}

impl View for InferInputTensor {
    type V = InputView;

    open spec fn view(&self) -> InputView {
        InputView {
            name: self.name@,
            datatype: self.datatype@,
            shape: self.shape@,
            contents: match self.contents {
                Some(c) => Some(c@),
                None => None,
            },
        }
    }
}

impl View for ModelInferRequest {
    type V = RequestView;

    open spec fn view(&self) -> RequestView {
        RequestView {
            model_name: self.model_name@,
            model_version: self.model_version@,
            id: self.id@,
            inputs: self.inputs@.map_values(|t: InferInputTensor| t@),
            outputs: self.outputs@.map_values(|t: InferRequestedOutputTensor| t.name@),
        }
    }
}

} // verus!
