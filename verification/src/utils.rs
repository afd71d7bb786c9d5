//! Decoding of byte-string tensors.

use crate::buffer::{
    bytes_as_slice, bytes_from_vec, bytes_get_u32_le, bytes_remaining, bytes_split_to,
    remaining_bytes,
};
use crate::errors::AiRouterError;
use crate::text::chars_of;
use std::str::Utf8Error;
use vstd::bytes::{spec_u32_from_le_bytes, spec_u32_to_le_bytes};
use vstd::prelude::*;
use vstd::string::*;
use vstd::utf8::*;

verus! {

/// `std::str::Utf8Error`, which is carried through as it comes.
#[verifier::external_type_specification]
#[verifier::external_body]
pub struct ExUtf8Error(Utf8Error);

/// What is taken for granted of `std::str::from_utf8`: it accepts exactly
/// the byte sequences that are valid UTF-8, and the string it returns
/// consists of the bytes it was given.
pub assume_specification[ core::str::from_utf8 ](v: &[u8]) -> (r: Result<&str, Utf8Error>)
    ensures
        r is Ok <==> valid_utf8(v@),
        r is Ok ==> r->Ok_0.spec_bytes() == v@,
;

/// The strings that a byte-string tensor holds.
///
/// The tensor is a run of entries, each a length in four little-endian bytes
/// followed by that many bytes of UTF-8. Reading stops, without failing, where
/// fewer than four bytes are left for a length or where a length runs past the
/// end of the buffer: what was read until then is the result. An entry that is
/// not valid UTF-8 makes the whole tensor undecodable, which is `None`.
pub open spec fn bytes_tensor_strings(buf: Seq<u8>) -> Option<Seq<Seq<char>>>
    decreases buf.len(),
{
    if buf.len() < 4 {
        Some(Seq::empty())
    } else {
        let len = spec_u32_from_le_bytes(buf.take(4)) as int;
        let rest = buf.skip(4);
        if len > rest.len() {
            Some(Seq::empty())
        } else if !valid_utf8(rest.take(len)) {
            None
        } else {
            match bytes_tensor_strings(rest.skip(len)) {
                Some(tail) => Some(seq![decode_utf8(rest.take(len))] + tail),
                None => None,
            }
        }
    }
}

/// The views of a vector of strings, in order.
pub open spec fn string_views(strings: Seq<String>) -> Seq<Seq<char>> {
    strings.map_values(|s: String| s@)
}

/// Decodes a byte-string tensor into its strings, in order.
///
/// A truncated tail (too few bytes for a length, or a length that runs past the
/// end) ends the decoding and is not reported. An entry that is not UTF-8 is
/// reported, with the error of the first such entry, and nothing is decoded.
pub fn deserialize_bytes_tensor(encoded_tensor: Vec<u8>) -> (r: Result<Vec<String>, Utf8Error>)
    ensures
        match r {
            Ok(strs) => bytes_tensor_strings(encoded_tensor@) == Some(string_views(strs@)),
            Err(_) => bytes_tensor_strings(encoded_tensor@) is None,
        },
{
    let ghost input = encoded_tensor@;
    let mut bytes = bytes_from_vec(encoded_tensor);
    let mut strs: Vec<String> = Vec::new();
    while bytes_remaining(&bytes) >= 4
        invariant
            input == encoded_tensor@,
            match bytes_tensor_strings(remaining_bytes(bytes)) {
                Some(tail) => bytes_tensor_strings(input) == Some(string_views(strs@) + tail),
                None => bytes_tensor_strings(input) is None,
            },
        decreases remaining_bytes(bytes).len(),
    {
        let ghost before = remaining_bytes(bytes);
        let len = bytes_get_u32_le(&mut bytes) as usize;
        if len > bytes_remaining(&bytes) {
            proof {
                assert(string_views(strs@) + Seq::<Seq<char>>::empty() =~= string_views(strs@));
            }
            return Ok(strs);
        }
        let slice = bytes_split_to(&mut bytes, len);
        proof {
            assert(remaining_bytes(slice) == before.skip(4).take(len as int));
            assert(remaining_bytes(bytes) == before.skip(4).skip(len as int));
        }
        match core::str::from_utf8(bytes_as_slice(&slice)) {
            Ok(s) => {
                let owned = s.to_owned();
                proof {
                    encode_utf8_decode_utf8(s@);
                    assert(string_views(strs@.push(owned)) =~= string_views(strs@).push(s@));
                    let tail = bytes_tensor_strings(remaining_bytes(bytes));
                    if tail is Some {
                        assert(string_views(strs@).push(s@) + tail->0 =~= string_views(strs@) + (
                        seq![s@] + tail->0));
                    }
                }
                strs.push(owned);
            },
            Err(e) => {
                return Err(e);
            },
        }
    }
    proof {
        assert(string_views(strs@) + Seq::<Seq<char>>::empty() =~= string_views(strs@));
    }
    Ok(strs)
}

/// The byte-string tensor that holds `strings`: for each string, in order,
/// the length of its UTF-8 bytes as four little-endian bytes and then the
/// bytes.
pub open spec fn bytes_tensor_encoding(strings: Seq<Seq<char>>) -> Seq<u8>
    decreases strings.len(),
{
    if strings.len() == 0 {
        Seq::empty()
    } else {
        spec_u32_to_le_bytes(encode_utf8(strings[0]).len() as u32) + encode_utf8(strings[0])
            + bytes_tensor_encoding(strings.drop_first())
    }
}

/// Decoding the tensor that holds a list of strings gives the list back, in
/// order, whatever the strings, as long as the UTF-8 bytes of each can be
/// counted in 32 bits.
pub proof fn lemma_bytes_tensor_round_trip(strings: Seq<Seq<char>>)
    requires
        forall|i: int| 0 <= i < strings.len() ==> encode_utf8(#[trigger] strings[i]).len() <= u32::MAX,
    ensures
        bytes_tensor_strings(bytes_tensor_encoding(strings)) == Some(strings),
    decreases strings.len(),
{
    if strings.len() > 0 {
        let body = encode_utf8(strings[0]);
        let prefix = spec_u32_to_le_bytes(body.len() as u32);
        let tail = bytes_tensor_encoding(strings.drop_first());
        let buf = bytes_tensor_encoding(strings);
        vstd::bytes::lemma_auto_spec_u32_to_from_le_bytes();
        assert(prefix.len() == 4);
        assert(buf.take(4) =~= prefix);
        assert(buf.skip(4) =~= body + tail);
        assert(buf.skip(4).take(body.len() as int) =~= body);
        assert(buf.skip(4).skip(body.len() as int) =~= tail);
        encode_utf8_valid_utf8(strings[0]);
        encode_utf8_decode_utf8(strings[0]);
        lemma_bytes_tensor_round_trip(strings.drop_first());
        assert(seq![strings[0]] + strings.drop_first() =~= strings);
    }
}

/// The position of the last dot in `name`, where it has one.
pub open spec fn last_dot(name: Seq<char>) -> Option<int>
    decreases name.len(),
{
    if name.len() == 0 {
        None
    } else if name.last() == '.' {
        Some(name.len() - 1)
    } else {
        last_dot(name.drop_last())
    }
}

/// The extension of a file name: what stands behind its last dot. A name
/// without a dot has none.
pub open spec fn file_extension(name: Seq<char>) -> Option<Seq<char>> {
    match last_dot(name) {
        Some(at) => Some(name.skip(at + 1)),
        None => None,
    }
}

/// The message of the error for a file name without an extension.
pub open spec fn no_extension_message(name: Seq<char>) -> Seq<char> {
    "failed to get extension of file name "@ + name
}

/// The extension of a file name: see [`file_extension`].
pub fn get_file_extension(filename: &str) -> (r: Result<String, AiRouterError>)
    ensures
        match r {
            Ok(extension) => file_extension(filename@) == Some(extension@),
            Err(e) => file_extension(filename@) is None && (e matches AiRouterError::InternalServerError(
                m,
            ) && m@ == no_extension_message(filename@)),
        },
{
    let chars = chars_of(filename);
    let mut i: usize = chars.len();
    assert(chars@.take(i as int) =~= chars@);
    while i > 0
        invariant
            i <= chars@.len(),
            chars@ == filename@,
            last_dot(chars@) == last_dot(chars@.take(i as int)),
        decreases i,
    {
        if chars[i - 1] == '.' {
            let mut extension = String::new();
            extension.append(filename.substring_char(i, chars.len()));
            assert(extension@ =~= filename@.skip(i as int));
            return Ok(extension);
        }
        assert(chars@.take(i as int).drop_last() =~= chars@.take(i - 1));
        i -= 1;
    }
    let mut message = String::new();
    message.append("failed to get extension of file name ");
    message.append(filename);
    assert(message@ =~= no_extension_message(filename@));
    Err(AiRouterError::InternalServerError(message))
}

} // verus!
