//! Primitive value decoders: length-prefixed byte vectors, vector counts,
//! and UTF-8 names.
//!
//! Vectors are encoded as a LEB128 `u32` element count followed by the
//! encoding of their elements; here the raw-byte form is decoded, returned
//! as a non-owning view into the input.  A name is a byte vector whose
//! payload must be valid UTF-8; invalid UTF-8 is an encoding error, distinct
//! from a structural one.

use vstd::prelude::*;
use vstd::slice::slice_subrange;
use vstd::utf8::{decode_utf8, valid_utf8};

use crate::error::{DecodeErr, ErrorKind, FailKind, Parsed, Prod, decodes_to};
use crate::leb128::{leb128_u32, spec_leb_u32};

verus! {

/// Byte-vector outcome at `pos`: a `u32` count, then exactly that many raw
/// bytes.
pub open spec fn spec_vector(s: Seq<u8>, pos: int) -> Parsed<Seq<u8>> {
    match spec_leb_u32(s, pos) {
        Parsed::Found { v: n, end } => if end + n <= s.len() {
            Parsed::Found { v: s.subrange(end, end + n), end: end + n }
        } else {
            Parsed::Incomplete
        },
        Parsed::Incomplete => Parsed::Incomplete,
        Parsed::Fail { kind } => Parsed::Fail { kind },
    }
}

/// Decodes a length-prefixed byte vector: a LEB128 `u32` count, then exactly
/// that many raw bytes, returned as a view into the input.
pub fn vector_parser<'a>(input: &'a [u8], pos: usize) -> (r: Result<
    (&'a [u8], usize),
    DecodeErr,
>)
    requires
        pos <= input@.len(),
    ensures
        decodes_to(r, spec_vector(input@, pos as int), Prod::Vector, pos),
        r matches Ok((v, end)) ==> pos < end <= input@.len(),
{
    let (n, end) = match leb128_u32(input, pos) {
        Ok(x) => x,
        Err(e) => {
            return Err(e.push(Prod::Vector, pos));
        },
    };
    if input.len() - end < n as usize {
        return Err(DecodeErr::new(ErrorKind::Incomplete, Prod::Vector, pos));
    }
    let out = slice_subrange(input, end, end + n as usize);
    proof {
        assert(out.deep_view() =~= out@);
    }
    Ok((out, end + n as usize))
}

/// Vector-count outcome and decoder: the `u32` length read alone, for
/// clients that pair it with their own element decoder.
pub fn vector_count_parser(input: &[u8], pos: usize) -> (r: Result<(u32, usize), DecodeErr>)
    requires
        pos <= input@.len(),
    ensures
        decodes_to(r, spec_leb_u32(input@, pos as int), Prod::LebU32, pos),
        r matches Ok((v, end)) ==> pos < end <= input@.len(),
{
    leb128_u32(input, pos)
}

/// Outcome of decoding exactly `n` consecutive elements with the element
/// grammar `elem`, starting at `pos`: the elements in order, ending where
/// the last one ends; the first failing element's failure is propagated.
pub open spec fn spec_vec_of<T>(
    s: Seq<u8>,
    pos: int,
    n: nat,
    elem: spec_fn(Seq<u8>, int) -> Parsed<T>,
) -> Parsed<Seq<T>>
    decreases n,
{
    if n == 0 {
        Parsed::Found { v: Seq::empty(), end: pos }
    } else {
        match elem(s, pos) {
            Parsed::Found { v, end } => match spec_vec_of(s, end, (n - 1) as nat, elem) {
                Parsed::Found { v: rest, end: e2 } => Parsed::Found {
                    v: seq![v] + rest,
                    end: e2,
                },
                Parsed::Incomplete => Parsed::Incomplete,
                Parsed::Fail { kind } => Parsed::Fail { kind },
            },
            Parsed::Incomplete => Parsed::Incomplete,
            Parsed::Fail { kind } => Parsed::Fail { kind },
        }
    }
}

/// Outcome of a counted vector: a LEB128 `u32` element count, then exactly
/// that many elements of the element grammar `elem`.
pub open spec fn spec_counted_vec<T>(
    s: Seq<u8>,
    pos: int,
    elem: spec_fn(Seq<u8>, int) -> Parsed<T>,
) -> Parsed<Seq<T>> {
    match spec_leb_u32(s, pos) {
        Parsed::Found { v: n, end } => spec_vec_of(s, end, n as nat, elem),
        Parsed::Incomplete => Parsed::Incomplete,
        Parsed::Fail { kind } => Parsed::Fail { kind },
    }
}

/// Name outcome at `pos`: a byte vector whose payload is valid UTF-8,
/// decoded to its character sequence; a payload that is not UTF-8 is an
/// encoding failure.
pub open spec fn spec_name(s: Seq<u8>, pos: int) -> Parsed<Seq<char>> {
    match spec_vector(s, pos) {
        Parsed::Found { v: bytes, end } => if valid_utf8(bytes) {
            Parsed::Found { v: decode_utf8(bytes), end }
        } else {
            Parsed::Fail { kind: FailKind::Encoding }
        },
        Parsed::Incomplete => Parsed::Incomplete,
        Parsed::Fail { kind } => Parsed::Fail { kind },
    }
}

/// Relies on core::str::from_utf8: it returns Ok exactly when the bytes are
/// valid UTF-8, and the returned string slice is their decoding.
#[verifier::external_body]
fn utf8_from_bytes<'a>(bytes: &'a [u8]) -> (r: Option<&'a str>)
    ensures
        r is Some <==> valid_utf8(bytes@),
        r matches Some(s) ==> s@ == decode_utf8(bytes@),
{
    core::str::from_utf8(bytes).ok()
}

/// Decodes a name: a byte vector containing the UTF-8 encoding of the
/// name's character sequence, returned as a view into the input.
pub fn name_parser<'a>(input: &'a [u8], pos: usize) -> (r: Result<(&'a str, usize), DecodeErr>)
    requires
        pos <= input@.len(),
    ensures
        decodes_to(r, spec_name(input@, pos as int), Prod::Name, pos),
        r matches Ok((v, end)) ==> pos < end <= input@.len(),
{
    let (data, end) = match vector_parser(input, pos) {
        Ok(x) => x,
        Err(e) => {
            return Err(e.push(Prod::Name, pos));
        },
    };
    proof {
        assert(data.deep_view() =~= data@);
    }
    match utf8_from_bytes(data) {
        Some(s) => Ok((s, end)),
        None => Err(DecodeErr::new(ErrorKind::Encoding, Prod::Name, pos)),
    }
}

} // verus!
