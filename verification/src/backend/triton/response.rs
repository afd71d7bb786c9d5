//! Reading the messages of a response stream.

use super::utils::{get_output_idx, output_position};
use super::{ModelInferResponse, ModelStreamInferResponse};
use crate::text::{
    join, lemma_without_takes_out_every_occurrence, overlaps_itself, remove_all, trim, trimmed,
    uncovered_from, without,
};
use crate::utils::{bytes_tensor_strings, deserialize_bytes_tensor, string_views};
use std::str::Utf8Error;
use vstd::prelude::*;
use vstd::string::*;

verus! {

/// Why a message of the response stream holds no payload for an output.
#[derive(Debug, Clone, Copy, PartialEq, Eq, Structural)]
pub enum OutputFailure {
    /// The backend reports a failure: the message carries an error message.
    BackendError,
    /// The message carries neither an error message nor a response.
    EmptyResponse,
    /// The response has no tensor of the name asked for.
    OutputMissing,
    /// The response names the tensor but has no raw payload at its position.
    PayloadMissing,
}

/// Where `part` holds the output called `name`: the position of the tensor
/// and of its raw payload in the response, or why there is none. An error
/// message counts before anything else in the message.
pub open spec fn output_reading(part: ModelStreamInferResponse, name: Seq<char>) -> Result<
    usize,
    OutputFailure,
> {
    if part.error_message@.len() > 0 {
        Err(OutputFailure::BackendError)
    } else {
        match part.infer_response {
            None => Err(OutputFailure::EmptyResponse),
            Some(response) => match output_position(response.outputs@, name) {
                None => Err(OutputFailure::OutputMissing),
                Some(idx) => if idx < response.raw_output_contents@.len() {
                    Ok(idx as usize)
                } else {
                    Err(OutputFailure::PayloadMissing)
                },
            },
        }
    }
}

/// The response in `part` and the position at which it holds the output
/// called `name`, or why there is none.
pub fn read_output<'a>(part: &'a ModelStreamInferResponse, name: &str) -> (r: Result<
    (&'a ModelInferResponse, usize),
    OutputFailure,
>)
    ensures
        match r {
            Ok((response, idx)) => output_reading(*part, name@) == Ok::<usize, OutputFailure>(idx)
                && part.infer_response == Some(*response) && idx
                < response.raw_output_contents@.len() && idx < response.outputs@.len(),
            Err(failure) => output_reading(*part, name@) == Err::<usize, OutputFailure>(failure),
        },
{
    if !part.error_message.as_str().is_empty() {
        return Err(OutputFailure::BackendError);
    }
    match &part.infer_response {
        None => Err(OutputFailure::EmptyResponse),
        Some(response) => match get_output_idx(response.outputs.as_slice(), name) {
            None => Err(OutputFailure::OutputMissing),
            Some(idx) => if idx < response.raw_output_contents.len() {
                Ok((response, idx))
            } else {
                Err(OutputFailure::PayloadMissing)
            },
        },
    }
}

/// The marker with which a model ends its text.
pub open spec fn end_marker() -> Seq<char> {
    "</s>"@
}

/// No end of the end marker is a beginning of it, so that two end markers
/// never overlap.
pub proof fn lemma_end_marker_never_overlaps()
    ensures
        end_marker().len() == 4,
        !overlaps_itself(end_marker()),
{
    reveal_strlit("</s>");
    let marker = end_marker();
    assert forall|d: int| 0 < d < marker.len() implies marker.skip(d) != marker.take(
        marker.len() - d,
    ) by {
        assert(marker.skip(d)[0] == marker[d]);
        assert(marker.take(marker.len() - d)[0] == marker[0]);
    }
}

/// Every end marker is taken out of a text before it is used: what is left
/// of the text are its characters that belong to no end marker, in order,
/// wherever in the text the markers stand.
pub proof fn lemma_every_end_marker_is_taken_out(text: Seq<char>)
    ensures
        without(text, end_marker()) == uncovered_from(text, end_marker(), 0),
{
    lemma_end_marker_never_overlaps();
    lemma_without_takes_out_every_occurrence(text, end_marker());
}

/// How the strings of a byte-string tensor make up a text.
#[derive(Debug, Clone, Copy, PartialEq, Eq, Structural)]
pub enum TextStyle {
    /// The strings as they are, one after the other.
    Verbatim,
    /// The strings one after the other, and then without any end marker.
    Generated,
    /// The strings, each without the white space around it, one after the
    /// other, and then without any end marker.
    Trimmed,
}

/// The text that `strings` make up in the style `style`.
pub open spec fn styled(strings: Seq<Seq<char>>, style: TextStyle) -> Seq<char> {
    match style {
        TextStyle::Verbatim => strings.flatten(),
        TextStyle::Generated => without(strings.flatten(), end_marker()),
        TextStyle::Trimmed => without(
            strings.map_values(|s: Seq<char>| trimmed(s)).flatten(),
            end_marker(),
        ),
    }
}

/// The text that a byte-string tensor carries, in the style `style`; `None`
/// where the tensor cannot be decoded.
pub open spec fn tensor_text(raw: Seq<u8>, style: TextStyle) -> Option<Seq<char>> {
    match bytes_tensor_strings(raw) {
        Some(strings) => Some(styled(strings, style)),
        None => None,
    }
}

/// The text that a byte-string tensor carries: see [`tensor_text`].
pub fn decode_text(raw: &Vec<u8>, style: TextStyle) -> (r: Result<String, Utf8Error>)
    ensures
        match r {
            Ok(text) => tensor_text(raw@, style) == Some(text@),
            Err(_) => tensor_text(raw@, style) is None,
        },
{
    let strings = match deserialize_bytes_tensor(raw.clone()) {
        Ok(strings) => strings,
        Err(e) => {
            return Err(e);
        },
    };
    match style {
        TextStyle::Verbatim => Ok(join(&strings)),
        TextStyle::Generated => Ok(remove_all(join(&strings).as_str(), "</s>")),
        TextStyle::Trimmed => {
            let mut tidy: Vec<String> = Vec::new();
            let mut i: usize = 0;
            while i < strings.len()
                invariant
                    i <= strings@.len(),
                    string_views(tidy@) =~= string_views(strings@).take(i as int).map_values(
                        |s: Seq<char>| trimmed(s),
                    ),
                decreases strings@.len() - i,
            {
                let ghost before = tidy@;
                let piece = trim(strings[i].as_str());
                tidy.push(piece);
                proof {
                    let views = string_views(strings@);
                    assert(string_views(tidy@) =~= string_views(before).push(piece@));
                    assert(views.take(i + 1) =~= views.take(i as int).push(views[i as int]));
                    assert(views.take(i + 1).map_values(|s: Seq<char>| trimmed(s))
                        =~= views.take(i as int).map_values(|s: Seq<char>| trimmed(s)).push(
                        trimmed(views[i as int]),
                    ));
                }
                i += 1;
            }
            assert(string_views(strings@).take(i as int) =~= string_views(strings@));
            Ok(remove_all(join(&tidy).as_str(), "</s>"))
        },
    }
}

} // verus!
