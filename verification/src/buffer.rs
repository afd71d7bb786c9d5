//! The shared byte buffer that tensor payloads are read from.
//!
//! `bytes::Bytes` is a cursor over immutable bytes. Nothing in this module is
//! proved: each item states what the `bytes` crate does, in terms of the bytes
//! that a buffer has not handed out yet.

use bytes::Buf;
use bytes::Bytes;
use std::ops::Deref;
use vstd::bytes::spec_u32_from_le_bytes;
use vstd::prelude::*;

verus! {

/// `bytes::Bytes`, of which only the items below say anything.
#[verifier::external_type_specification]
#[verifier::external_body]
pub struct ExBytes(Bytes);

/// The bytes of a buffer from its cursor to its end, in order.
pub uninterp spec fn remaining_bytes(buf: Bytes) -> Seq<u8>;

/// `Bytes::from` for a vector: the buffer takes the vector's bytes over, all
/// of them ahead of the cursor.
#[verifier::external_body]
pub(crate) fn bytes_from_vec(data: Vec<u8>) -> (buf: Bytes)
    ensures
        remaining_bytes(buf) == data@,
{
    Bytes::from(data)
}

/// `Buf::remaining` on `Bytes`: how many bytes lie ahead of the cursor.
#[verifier::external_body]
pub(crate) fn bytes_remaining(buf: &Bytes) -> (n: usize)
    ensures
        n == remaining_bytes(*buf).len(),
{
    buf.remaining()
}

/// `Buf::get_u32_le` on `Bytes`: reads the next four bytes as a little-endian
/// unsigned integer and moves the cursor past them. It panics with fewer than
/// four bytes ahead, which the precondition leaves out.
#[verifier::external_body]
pub(crate) fn bytes_get_u32_le(buf: &mut Bytes) -> (value: u32)
    requires
        remaining_bytes(*old(buf)).len() >= 4,
    ensures
        value == spec_u32_from_le_bytes(remaining_bytes(*old(buf)).take(4)),
        remaining_bytes(*final(buf)) == remaining_bytes(*old(buf)).skip(4),
{
    buf.get_u32_le()
}

/// `Bytes::split_to`: hands out the next `at` bytes as a buffer of their own
/// and keeps the rest. It panics when `at` exceeds what is ahead, which the
/// precondition leaves out.
#[verifier::external_body]
pub(crate) fn bytes_split_to(buf: &mut Bytes, at: usize) -> (head: Bytes)
    requires
        at <= remaining_bytes(*old(buf)).len(),
    ensures
        remaining_bytes(head) == remaining_bytes(*old(buf)).take(at as int),
        remaining_bytes(*final(buf)) == remaining_bytes(*old(buf)).skip(at as int),
{
    buf.split_to(at)
}

/// `Deref` of `Bytes`: the bytes ahead of the cursor as a slice.
#[verifier::external_body]
pub(crate) fn bytes_as_slice(buf: &Bytes) -> (slice: &[u8])
    ensures
        slice@ == remaining_bytes(*buf),
{
    buf.deref()
}

} // verus!
