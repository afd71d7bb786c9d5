//! Building inference requests.

use super::{
    ContentsView, InferInputTensor, InferRequestedOutputTensor, InferTensorContents, InputView,
    ModelInferRequest, RequestView,
};
use crate::text::str_eq;
use vstd::prelude::*;
use vstd::string::*;

verus! {

/// The elements of a tensor, tagged with their element type.
///
/// `FP32` and `FP64` hold IEEE-754 bit patterns. An element of `Bytes` is one
/// byte string, however long.
#[derive(Debug)]
pub enum InferTensorData {
    Bool(Vec<bool>),
    Int32(Vec<i32>),
    Int64(Vec<i64>),
    UInt32(Vec<u32>),
    UInt64(Vec<u64>),
    FP32(Vec<u32>),
    FP64(Vec<u64>),
    Bytes(Vec<Vec<u8>>),
}

impl InferTensorData {
    /// The protocol's name for the element type.
    pub fn as_ref(&self) -> (r: &'static str)
        ensures
            r@ == self@.datatype(),
    {
        match self {
            InferTensorData::Bool(_) => "BOOL",
            InferTensorData::Int32(_) => "INT32",
            InferTensorData::Int64(_) => "INT64",
            InferTensorData::UInt32(_) => "UINT32",
            InferTensorData::UInt64(_) => "UINT64",
            InferTensorData::FP32(_) => "FP32",
            InferTensorData::FP64(_) => "FP64",
            InferTensorData::Bytes(_) => "BYTES",
        }
    }

    /// How many elements there are.
    pub fn len(&self) -> (r: usize)
        ensures
            r == self@.count(),
    {
        match self {
            InferTensorData::Bool(v) => v.len(),
            InferTensorData::Int32(v) => v.len(),
            InferTensorData::Int64(v) => v.len(),
            InferTensorData::UInt32(v) => v.len(),
            InferTensorData::UInt64(v) => v.len(),
            InferTensorData::FP32(v) => v.len(),
            InferTensorData::FP64(v) => v.len(),
            InferTensorData::Bytes(v) => v.len(),
        }
    }
}

/// What tensor data holds: its elements under their element type.
pub enum TensorValues {
    Bool(Seq<bool>),
    Int32(Seq<i32>),
    Int64(Seq<i64>),
    UInt32(Seq<u32>),
    UInt64(Seq<u64>),
    FP32(Seq<u32>),
    FP64(Seq<u64>),
    Bytes(Seq<Seq<u8>>),
}

impl View for InferTensorData {
    type V = TensorValues;

    open spec fn view(&self) -> TensorValues {
        match self {
            InferTensorData::Bool(v) => TensorValues::Bool(v@),
            InferTensorData::Int32(v) => TensorValues::Int32(v@),
            InferTensorData::Int64(v) => TensorValues::Int64(v@),
            InferTensorData::UInt32(v) => TensorValues::UInt32(v@),
            InferTensorData::UInt64(v) => TensorValues::UInt64(v@),
            InferTensorData::FP32(v) => TensorValues::FP32(v@),
            InferTensorData::FP64(v) => TensorValues::FP64(v@),
            InferTensorData::Bytes(v) => TensorValues::Bytes(v@.map_values(|b: Vec<u8>| b@)),
        }
    }
}

impl TensorValues {
    /// The protocol's name for the element type.
    pub open spec fn datatype(self) -> Seq<char> {
        match self {
            TensorValues::Bool(_) => "BOOL"@,
            TensorValues::Int32(_) => "INT32"@,
            TensorValues::Int64(_) => "INT64"@,
            TensorValues::UInt32(_) => "UINT32"@,
            TensorValues::UInt64(_) => "UINT64"@,
            TensorValues::FP32(_) => "FP32"@,
            TensorValues::FP64(_) => "FP64"@,
            TensorValues::Bytes(_) => "BYTES"@,
        }
    }

    /// How many elements there are. A byte string is one element.
    pub open spec fn count(self) -> nat {
        match self {
            TensorValues::Bool(v) => v.len(),
            TensorValues::Int32(v) => v.len(),
            TensorValues::Int64(v) => v.len(),
            TensorValues::UInt32(v) => v.len(),
            TensorValues::UInt64(v) => v.len(),
            TensorValues::FP32(v) => v.len(),
            TensorValues::FP64(v) => v.len(),
            TensorValues::Bytes(v) => v.len(),
        }
    }

    /// The payload that carries these elements: the field of their element
    /// type holds them, and every other field is empty.
    pub open spec fn contents(self) -> ContentsView {
        ContentsView {
            bool_contents: match self {
                TensorValues::Bool(v) => v,
                _ => Seq::empty(),
            },
            int_contents: match self {
                TensorValues::Int32(v) => v,
                _ => Seq::empty(),
            },
            int64_contents: match self {
                TensorValues::Int64(v) => v,
                _ => Seq::empty(),
            },
            uint_contents: match self {
                TensorValues::UInt32(v) => v,
                _ => Seq::empty(),
            },
            uint64_contents: match self {
                TensorValues::UInt64(v) => v,
                _ => Seq::empty(),
            },
            fp32_contents: match self {
                TensorValues::FP32(v) => v,
                _ => Seq::empty(),
            },
            fp64_contents: match self {
                TensorValues::FP64(v) => v,
                _ => Seq::empty(),
            },
            bytes_contents: match self {
                TensorValues::Bytes(v) => v,
                _ => Seq::empty(),
            },
        }
    }
}

impl InferTensorContents {
    /// The payload for `data`: the field of its element type holds its
    /// elements, whatever their values, and every other field is empty.
    pub fn from(data: InferTensorData) -> (r: Self)
        ensures
            r@ == data@.contents(),
    {
        let mut contents = InferTensorContents {
            bool_contents: Vec::new(),
            int_contents: Vec::new(),
            int64_contents: Vec::new(),
            uint_contents: Vec::new(),
            uint64_contents: Vec::new(),
            fp32_contents: Vec::new(),
            fp64_contents: Vec::new(),
            bytes_contents: Vec::new(),
        };
        assert(contents.bytes_contents@.map_values(|b: Vec<u8>| b@) =~= Seq::<Seq<u8>>::empty());
        match data {
            InferTensorData::Bool(v) => {
                contents.bool_contents = v;
            },
            InferTensorData::Int32(v) => {
                contents.int_contents = v;
            },
            InferTensorData::Int64(v) => {
                contents.int64_contents = v;
            },
            InferTensorData::UInt32(v) => {
                contents.uint_contents = v;
            },
            InferTensorData::UInt64(v) => {
                contents.uint64_contents = v;
            },
            InferTensorData::FP32(v) => {
                contents.fp32_contents = v;
            },
            InferTensorData::FP64(v) => {
                contents.fp64_contents = v;
            },
            InferTensorData::Bytes(v) => {
                contents.bytes_contents = v;
            },
        }
        contents
    }
}

/// How many elements a tensor of this shape has: the product of its
/// dimensions, which is 1 for the empty shape.
pub open spec fn shape_elements(shape: Seq<i64>) -> int
    decreases shape.len(),
{
    if shape.len() == 0 {
        1
    } else {
        shape_elements(shape.drop_last()) * shape.last()
    }
}

/// Whether `shape` is a shape for `count` elements: no dimension is negative
/// and their product is `count`.
pub open spec fn shape_fits(shape: Seq<i64>, count: nat) -> bool {
    &&& forall|i: int| 0 <= i < shape.len() ==> shape[i] >= 0
    &&& shape_elements(shape) == count
}

proof fn lemma_shape_with_zero(shape: Seq<i64>, at: int)
    requires
        0 <= at < shape.len(),
        shape[at] == 0,
    ensures
        shape_elements(shape) == 0,
    decreases shape.len(),
{
    if at < shape.len() - 1 {
        lemma_shape_with_zero(shape.drop_last(), at);
    }
}

proof fn lemma_shape_grows(shape: Seq<i64>, n: int)
    requires
        0 <= n <= shape.len(),
        forall|i: int| 0 <= i < shape.len() ==> shape[i] >= 1,
    ensures
        1 <= shape_elements(shape.take(n)) <= shape_elements(shape),
    decreases shape.len() - n,
{
    lemma_shape_positive(shape.take(n));
    if n < shape.len() {
        lemma_shape_grows(shape, n + 1);
        assert(shape.take(n + 1).drop_last() =~= shape.take(n));
        assert(shape_elements(shape.take(n)) <= shape_elements(shape.take(n)) * shape[n])
            by (nonlinear_arith)
            requires
                shape_elements(shape.take(n)) >= 1,
                shape[n] >= 1,
        ;
    } else {
        assert(shape.take(n) =~= shape);
    }
}

proof fn lemma_shape_positive(shape: Seq<i64>)
    requires
        forall|i: int| 0 <= i < shape.len() ==> shape[i] >= 1,
    ensures
        shape_elements(shape) >= 1,
    decreases shape.len(),
{
    if shape.len() > 0 {
        lemma_shape_positive(shape.drop_last());
        assert(shape_elements(shape.drop_last()) * shape.last() >= 1) by (nonlinear_arith)
            requires
                shape_elements(shape.drop_last()) >= 1,
                shape.last() >= 1,
        ;
    }
}

/// Whether `shape` is a shape for `count` elements.
pub fn shape_matches(shape: &Vec<i64>, count: usize) -> (r: bool)
    ensures
        r == shape_fits(shape@, count as nat),
{
    let mut has_zero = false;
    let mut i: usize = 0;
    while i < shape.len()
        invariant
            i <= shape@.len(),
            forall|k: int| 0 <= k < i ==> shape@[k] >= 0,
            has_zero <==> exists|k: int| 0 <= k < i && shape@[k] == 0,
        decreases shape@.len() - i,
    {
        if shape[i] < 0 {
            return false;
        }
        if shape[i] == 0 {
            has_zero = true;
        }
        i += 1;
    }
    if has_zero {
        proof {
            let at = choose|k: int| 0 <= k < shape@.len() && shape@[k] == 0;
            lemma_shape_with_zero(shape@, at);
        }
        return count == 0;
    }
    if count == 0 {
        proof {
            lemma_shape_positive(shape@);
        }
        return false;
    }
    let mut product: u128 = 1;
    let mut j: usize = 0;
    assert(shape@.take(0) =~= Seq::<i64>::empty());
    while j < shape.len()
        invariant
            j <= shape@.len(),
            forall|k: int| 0 <= k < shape@.len() ==> shape@[k] >= 1,
            product == shape_elements(shape@.take(j as int)),
            product <= count,
        decreases shape@.len() - j,
    {
        let dim: u128 = shape[j] as u128;
        assert(product * dim <= 0x1_0000_0000_0000_0000 * 0x8000_0000_0000_0000)
            by (nonlinear_arith)
            requires
                product <= 0x1_0000_0000_0000_0000,
                dim <= 0x8000_0000_0000_0000,
        ;
        let next: u128 = product * dim;
        proof {
            assert(shape@.take(j + 1).drop_last() =~= shape@.take(j as int));
            lemma_shape_grows(shape@, j + 1);
        }
        if next > count as u128 {
            return false;
        }
        product = next;
        j += 1;
    }
    assert(shape@.take(j as int) =~= shape@);
    product == count as u128
}

/// Why a request could not be built.
#[derive(Debug)]
pub enum BuildError {
    /// An input of that name was added before.
    DuplicateInput(String),
    /// The shape given for the input of that name has a negative dimension,
    /// or is the shape of another number of elements than the input has.
    ShapeMismatch(String),
    /// The request names no model.
    NoModelName,
    /// The request asks for no output.
    NoOutput,
}

impl BuildError {
    /// What went wrong, in words.
    pub open spec fn message(self) -> Seq<char> {
        match self {
            BuildError::DuplicateInput(name) => "failed to build triton request: input "@ + name@
                + " given twice"@,
            BuildError::ShapeMismatch(name) => "failed to build triton request: shape of input "@
                + name@ + " does not fit its data"@,
            BuildError::NoModelName => "failed to build triton request: no model named"@,
            BuildError::NoOutput => "failed to build triton request: no output requested"@,
        }
    }

    /// What went wrong, in words.
    pub fn describe(&self) -> (r: String)
        ensures
            r@ == self.message(),
    {
        let mut text = String::new();
        match self {
            BuildError::DuplicateInput(name) => {
                text.append("failed to build triton request: input ");
                text.append(name.as_str());
                text.append(" given twice");
            },
            BuildError::ShapeMismatch(name) => {
                text.append("failed to build triton request: shape of input ");
                text.append(name.as_str());
                text.append(" does not fit its data");
            },
            BuildError::NoModelName => {
                text.append("failed to build triton request: no model named");
            },
            BuildError::NoOutput => {
                text.append("failed to build triton request: no output requested");
            },
        }
        assert(text@ =~= self.message());
        text
    }
}

/// How many elements a payload holds, over all of its fields.
pub open spec fn contents_count(contents: ContentsView) -> nat {
    contents.bool_contents.len() + contents.int_contents.len() + contents.int64_contents.len()
        + contents.uint_contents.len() + contents.uint64_contents.len()
        + contents.fp32_contents.len() + contents.fp64_contents.len()
        + contents.bytes_contents.len()
}

/// Whether an input has a payload and a shape for as many elements as the
/// payload holds.
pub open spec fn input_is_valid(input: InputView) -> bool {
    input.contents matches Some(contents) && shape_fits(input.shape, contents_count(contents))
}

/// Whether every input of `request` is valid and no two have the same name.
pub open spec fn inputs_are_valid(request: RequestView) -> bool {
    &&& forall|i: int| 0 <= i < request.inputs.len() ==> input_is_valid(#[trigger] request.inputs[i])
    &&& forall|i: int, j: int|
        0 <= i < j < request.inputs.len() ==> (#[trigger] request.inputs[i]).name
            != (#[trigger] request.inputs[j]).name
}

/// Whether `request` can go to the backend: it names a model, asks for an
/// output, and its inputs are valid.
pub open spec fn is_valid_request(request: RequestView) -> bool {
    &&& request.model_name.len() > 0
    &&& request.outputs.len() > 0
    &&& inputs_are_valid(request)
}

/// The payload for tensor data holds as many elements as the data has.
pub proof fn lemma_contents_hold_the_data(data: TensorValues)
    ensures
        contents_count(data.contents()) == data.count(),
{
}

/// Whether `request` has an input named `name`.
pub open spec fn has_input(request: RequestView, name: Seq<char>) -> bool {
    exists|i: int| 0 <= i < request.inputs.len() && (#[trigger] request.inputs[i]).name == name
}

/// What stands in the way of adding an input to `request`, if anything.
/// A name that is taken is reported before a shape that does not fit.
pub open spec fn input_refusal(
    request: RequestView,
    name: Seq<char>,
    shape: Seq<i64>,
    data: TensorValues,
) -> Option<BuildError> {
    if has_input(request, name) {
        Some(BuildError::DuplicateInput(arbitrary()))
    } else if !shape_fits(shape, data.count()) {
        Some(BuildError::ShapeMismatch(arbitrary()))
    } else {
        None
    }
}

/// An input is in a request with one more input if it was there before or is
/// the one added.
pub proof fn lemma_has_input_after(
    request: RequestView,
    name: Seq<char>,
    shape: Seq<i64>,
    data: TensorValues,
    other: Seq<char>,
)
    ensures
        has_input(with_input(request, name, shape, data), other) <==> has_input(request, other)
            || name == other,
{
    let after = with_input(request, name, shape, data);
    if has_input(request, other) {
        let i = choose|i: int|
            0 <= i < request.inputs.len() && (#[trigger] request.inputs[i]).name == other;
        assert(after.inputs[i].name == other);
    }
    if name == other {
        assert(after.inputs[request.inputs.len() as int].name == other);
    }
    if has_input(after, other) {
        let i = choose|i: int|
            0 <= i < after.inputs.len() && (#[trigger] after.inputs[i]).name == other;
        if i < request.inputs.len() {
            assert(request.inputs[i].name == other);
        }
    }
}

/// A shape of one row is a shape for as many elements as the row is long.
pub proof fn lemma_row_shape_fits(columns: i64)
    requires
        columns >= 0,
    ensures
        shape_fits(seq![1i64, columns], columns as nat),
{
    let shape = seq![1i64, columns];
    let head = seq![1i64];
    assert(shape.drop_last() =~= head);
    assert(head.drop_last() =~= Seq::<i64>::empty());
    assert(shape_elements(Seq::<i64>::empty()) == 1);
    assert(shape_elements(head) == shape_elements(head.drop_last()) * head.last());
    assert(shape_elements(head) == 1);
    assert(shape_elements(shape) == shape_elements(shape.drop_last()) * shape.last());
    assert(shape_elements(shape) == columns) by (nonlinear_arith)
        requires
            shape_elements(shape) == 1 * columns,
    ;
}

/// A shape of one column is a shape for as many elements as the column is
/// long.
pub proof fn lemma_column_shape_fits(rows: i64)
    requires
        rows >= 0,
    ensures
        shape_fits(seq![rows, 1i64], rows as nat),
{
    let shape = seq![rows, 1i64];
    let head = seq![rows];
    assert(shape.drop_last() =~= head);
    assert(head.drop_last() =~= Seq::<i64>::empty());
    assert(shape_elements(Seq::<i64>::empty()) == 1);
    assert(shape_elements(head) == shape_elements(head.drop_last()) * head.last());
    assert(shape_elements(head) == rows) by (nonlinear_arith)
        requires
            shape_elements(head) == 1 * rows,
    ;
    assert(shape_elements(shape) == shape_elements(shape.drop_last()) * shape.last());
    assert(shape_elements(shape) == rows) by (nonlinear_arith)
        requires
            shape_elements(shape) == rows * 1,
    ;
}

/// A request that is being put together, or the first error met on the way.
///
/// Once a step has failed, every later step leaves the builder as it is and
/// `build` returns that first error.
pub struct Builder {
    inner: Result<ModelInferRequest, BuildError>,
}

/// The request with no model name, no inputs and no outputs.
pub open spec fn empty_request() -> RequestView {
    RequestView {
        model_name: Seq::empty(),
        model_version: Seq::empty(),
        id: Seq::empty(),
        inputs: Seq::empty(),
        outputs: Seq::empty(),
    }
}

/// `request` with one more input at the end.
pub open spec fn with_input(
    request: RequestView,
    name: Seq<char>,
    shape: Seq<i64>,
    data: TensorValues,
) -> RequestView {
    RequestView {
        inputs: request.inputs.push(
            InputView { name, datatype: data.datatype(), shape, contents: Some(data.contents()) },
        ),
        ..request
    }
}

/// `request` with one more requested output at the end.
pub open spec fn with_output(request: RequestView, name: Seq<char>) -> RequestView {
    RequestView { outputs: request.outputs.push(name), ..request }
}

impl Builder {
    #[verifier::type_invariant]
    spec fn inputs_hold(self) -> bool {
        self.inner matches Ok(request) ==> inputs_are_valid(request@)
    }

    /// The request built so far, unless a step has failed.
    pub closed spec fn request(self) -> Option<RequestView> {
        match self.inner {
            Ok(request) => Some(request@),
            Err(_) => None,
        }
    }

    /// The first error met, if a step has failed.
    pub closed spec fn error(self) -> Option<BuildError> {
        match self.inner {
            Ok(_) => None,
            Err(e) => Some(e),
        }
    }

    /// Exactly one of `request` and `error` is there.
    pub proof fn lemma_request_or_error(self)
        ensures
            self.request() is Some <==> self.error() is None,
    {
    }

    /// A builder for a request that is empty so far.
    pub fn new() -> (r: Self)
        ensures
            r.request() == Some(empty_request()),
            r.error() is None,
    {
        let request = ModelInferRequest {
            model_name: String::new(),
            model_version: String::new(),
            id: String::new(),
            inputs: Vec::new(),
            outputs: Vec::new(),
        };
        assert(request@ =~= empty_request()) by {
            assert(request.inputs@.map_values(|t: InferInputTensor| t@) =~= Seq::empty());
            assert(request.outputs@.map_values(|t: InferRequestedOutputTensor| t.name@)
                =~= Seq::empty());
        }
        Builder { inner: Ok(request) }
    }

    /// The request, where every step succeeded, it names a model and asks for
    /// an output; else the first error: that of the first step that failed,
    /// or, with no such step, the missing model name before the missing
    /// output. A request that is returned is valid.
    pub fn build(self) -> (r: Result<ModelInferRequest, BuildError>)
        ensures
            r matches Ok(request) ==> is_valid_request(request@),
            match self.error() {
                Some(e) => r == Err::<ModelInferRequest, BuildError>(e),
                None => {
                    let request = self.request()->0;
                    if request.model_name.len() == 0 {
                        r == Err::<ModelInferRequest, BuildError>(BuildError::NoModelName)
                    } else if request.outputs.len() == 0 {
                        r == Err::<ModelInferRequest, BuildError>(BuildError::NoOutput)
                    } else {
                        r is Ok && r->Ok_0@ == request
                    }
                },
            },
    {
        proof {
            use_type_invariant(&self);
        }
        match self.inner {
            Ok(request) => {
                if request.model_name.as_str().is_empty() {
                    Err(BuildError::NoModelName)
                } else if request.outputs.len() == 0 {
                    Err(BuildError::NoOutput)
                } else {
                    Ok(request)
                }
            },
            Err(e) => Err(e),
        }
    }

    /// Names the model.
    pub fn model_name(self, model_name: &str) -> (r: Self)
        ensures
            r.error() == self.error(),
            r.request() is Some <==> r.error() is None,
            self.request() is Some ==> r.request() == Some(
                RequestView { model_name: model_name@, ..self.request()->0 },
            ),
    {
        proof {
            use_type_invariant(&self);
        }
        match self.inner {
            Ok(mut request) => {
                request.model_name = model_name.to_owned();
                Builder { inner: Ok(request) }
            },
            Err(e) => Builder { inner: Err(e) },
        }
    }

    /// Names the version of the model.
    pub fn model_version(self, model_version: &str) -> (r: Self)
        ensures
            r.error() == self.error(),
            r.request() is Some <==> r.error() is None,
            self.request() is Some ==> r.request() == Some(
                RequestView { model_version: model_version@, ..self.request()->0 },
            ),
    {
        proof {
            use_type_invariant(&self);
        }
        match self.inner {
            Ok(mut request) => {
                request.model_version = model_version.to_owned();
                Builder { inner: Ok(request) }
            },
            Err(e) => Builder { inner: Err(e) },
        }
    }

    /// Gives the request an identifier.
    pub fn id(self, id: &str) -> (r: Self)
        ensures
            r.error() == self.error(),
            r.request() is Some <==> r.error() is None,
            self.request() is Some ==> r.request() == Some(
                RequestView { id: id@, ..self.request()->0 },
            ),
    {
        proof {
            use_type_invariant(&self);
        }
        match self.inner {
            Ok(mut request) => {
                request.id = id.to_owned();
                Builder { inner: Ok(request) }
            },
            Err(e) => Builder { inner: Err(e) },
        }
    }

    /// Adds an input behind those added before. The step fails where an input
    /// of that name is there already, and where `shape` is no shape for the
    /// elements of `data`.
    pub fn input(self, name: &str, shape: Vec<i64>, data: InferTensorData) -> (r: Self)
        ensures
            r.request() is Some <==> r.error() is None,
            match self.error() {
                Some(e) => r.error() == Some(e),
                None => match input_refusal(self.request()->0, name@, shape@, data@) {
                    Some(BuildError::DuplicateInput(_)) => r.error() matches Some(
                        BuildError::DuplicateInput(n),
                    ) && n@ == name@,
                    Some(_) => r.error() matches Some(BuildError::ShapeMismatch(n)) && n@
                        == name@,
                    None => r.request() == Some(
                        with_input(self.request()->0, name@, shape@, data@),
                    ),
                },
            },
    {
        proof {
            use_type_invariant(&self);
        }
        match self.inner {
            Ok(mut request) => {
                let ghost before = request@;
                let mut i: usize = 0;
                while i < request.inputs.len()
                    invariant
                        i <= request.inputs@.len(),
                        request@ == before,
                        self.error() is None,
                        self.request() == Some(before),
                        forall|k: int| 0 <= k < i ==> (#[trigger] before.inputs[k]).name != name@,
                    decreases request.inputs@.len() - i,
                {
                    assert(before.inputs[i as int] == request.inputs@[i as int]@);
                    if str_eq(request.inputs[i].name.as_str(), name) {
                        assert(has_input(before, name@));
                        return Builder {
                            inner: Err(BuildError::DuplicateInput(name.to_owned())),
                        };
                    }
                    i += 1;
                }
                if !shape_matches(&shape, data.len()) {
                    return Builder { inner: Err(BuildError::ShapeMismatch(name.to_owned())) };
                }
                let ghost values = data@;
                let datatype = data.as_ref().to_owned();
                let contents = InferTensorContents::from(data);
                let tensor = InferInputTensor {
                    name: name.to_owned(),
                    datatype,
                    shape,
                    contents: Some(contents),
                };
                let ghost shape_view = tensor.shape@;
                request.inputs.push(tensor);
                assert(request@ =~= with_input(before, name@, shape_view, values)) by {
                    assert(request.inputs@.map_values(|t: InferInputTensor| t@)
                        =~= before.inputs.push(tensor@));
                }
                proof {
                    lemma_contents_hold_the_data(values);
                    let after = request@;
                    assert forall|i: int| 0 <= i < after.inputs.len() implies input_is_valid(
                        #[trigger] after.inputs[i],
                    ) by {
                        if i < before.inputs.len() {
                            assert(after.inputs[i] == before.inputs[i]);
                        }
                    }
                    assert forall|i: int, j: int| 0 <= i < j < after.inputs.len() implies (
                    #[trigger] after.inputs[i]).name != (#[trigger] after.inputs[j]).name by {
                        assert(after.inputs[i] == before.inputs[i]);
                        if j < before.inputs.len() {
                            assert(after.inputs[j] == before.inputs[j]);
                        }
                    }
                }
                Builder { inner: Ok(request) }
            },
            Err(e) => Builder { inner: Err(e) },
        }
    }

    /// Asks for one more output, behind those asked for before.
    pub fn output(self, name: &str) -> (r: Self)
        ensures
            r.error() == self.error(),
            r.request() is Some <==> r.error() is None,
            self.request() is Some ==> r.request() == Some(
                with_output(self.request()->0, name@),
            ),
    {
        proof {
            use_type_invariant(&self);
        }
        match self.inner {
            Ok(mut request) => {
                let ghost before = request@;
                let output = InferRequestedOutputTensor { name: name.to_owned() };
                request.outputs.push(output);
                assert(request@ =~= with_output(before, name@)) by {
                    assert(request.outputs@.map_values(|t: InferRequestedOutputTensor| t.name@)
                        =~= before.outputs.push(name@));
                }
                Builder { inner: Ok(request) }
            },
            Err(e) => Builder { inner: Err(e) },
        }
    }
}

/// Adds to `builder` an input whose name is not among `names`, which holds
/// the names of the inputs added so far, with a shape that fits its data.
pub(crate) fn add_input(
    builder: Builder,
    name: &str,
    shape: Vec<i64>,
    data: InferTensorData,
    Ghost(names): Ghost<Set<Seq<char>>>,
) -> (r: Builder)
    requires
        builder.request() is Some,
        forall|other: Seq<char>| has_input(builder.request()->0, other) ==> names.contains(other),
        !names.contains(name@),
        shape_fits(shape@, data@.count()),
    ensures
        r.request() == Some(with_input(builder.request()->0, name@, shape@, data@)),
        forall|other: Seq<char>| #[trigger]
            has_input(r.request()->0, other) ==> names.insert(name@).contains(other),
{
    proof {
        builder.lemma_request_or_error();
        assert forall|other: Seq<char>| #[trigger]
            has_input(
                with_input(builder.request()->0, name@, shape@, data@),
                other,
            ) implies names.insert(name@).contains(other) by {
            lemma_has_input_after(builder.request()->0, name@, shape@, data@, other);
        }
    }
    builder.input(name, shape, data)
}

/// `n` as a dimension of a shape, where it is small enough to be one.
pub fn dimension(n: usize) -> (r: Option<i64>)
    ensures
        match r {
            Some(d) => d == n,
            None => n > i64::MAX,
        },
{
    let wide: u64 = n as u64;
    if wide > 0x7fff_ffff_ffff_ffff {
        None
    } else {
        Some(wide as i64)
    }
}

/// The shape of a tensor of one row and `columns` columns.
pub fn row_shape(columns: i64) -> (r: Vec<i64>)
    ensures
        r@ == seq![1i64, columns],
{
    let mut shape: Vec<i64> = Vec::new();
    shape.push(1);
    shape.push(columns);
    assert(shape@ =~= seq![1i64, columns]);
    shape
}

impl InferTensorData {
    /// The data of a tensor that holds one truth value.
    pub fn one_bool(value: bool) -> (r: Self)
        ensures
            r@ == TensorValues::Bool(seq![value]),
    {
        let mut values: Vec<bool> = Vec::new();
        values.push(value);
        assert(values@ =~= seq![value]);
        InferTensorData::Bool(values)
    }

    /// The data of a tensor that holds one signed 32-bit integer.
    pub fn one_int32(value: i32) -> (r: Self)
        ensures
            r@ == TensorValues::Int32(seq![value]),
    {
        let mut values: Vec<i32> = Vec::new();
        values.push(value);
        assert(values@ =~= seq![value]);
        InferTensorData::Int32(values)
    }

    /// The data of a tensor that holds one unsigned 64-bit integer.
    pub fn one_uint64(value: u64) -> (r: Self)
        ensures
            r@ == TensorValues::UInt64(seq![value]),
    {
        let mut values: Vec<u64> = Vec::new();
        values.push(value);
        assert(values@ =~= seq![value]);
        InferTensorData::UInt64(values)
    }

    /// The data of a tensor that holds one single-precision number, given by
    /// its bit pattern.
    pub fn one_fp32(bits: u32) -> (r: Self)
        ensures
            r@ == TensorValues::FP32(seq![bits]),
    {
        let mut values: Vec<u32> = Vec::new();
        values.push(bits);
        assert(values@ =~= seq![bits]);
        InferTensorData::FP32(values)
    }

    /// The data of a tensor that holds one byte string.
    pub fn one_bytes(value: Vec<u8>) -> (r: Self)
        ensures
            r@ == TensorValues::Bytes(seq![value@]),
    {
        let mut values: Vec<Vec<u8>> = Vec::new();
        values.push(value);
        assert(values@.map_values(|b: Vec<u8>| b@) =~= seq![value@]);
        InferTensorData::Bytes(values)
    }
}

impl Default for Builder {
    fn default() -> (r: Self)
        ensures
            r.request() == Some(empty_request()),
            r.error() is None,
    {
        Builder::new()
    }
}

} // verus!
