//! Little-endian integer encodings and byte-buffer helpers shared by the
//! framing code and the message contexts.
use vstd::bytes::*;
use vstd::prelude::*;
use vstd::slice::slice_to_vec;
use vstd::utf8::*;

verus! {

/// The four little-endian bytes of `x`.
pub open spec fn le_u32(x: u32) -> Seq<u8> {
    spec_u32_to_le_bytes(x)
}

/// The eight little-endian bytes of `x`.
pub open spec fn le_u64(x: u64) -> Seq<u8> {
    spec_u64_to_le_bytes(x)
}

/// The value of four little-endian bytes.
pub open spec fn read_le_u32(s: Seq<u8>) -> u32 {
    spec_u32_from_le_bytes(s)
}

/// The value of eight little-endian bytes.
pub open spec fn read_le_u64(s: Seq<u8>) -> u64 {
    spec_u64_from_le_bytes(s)
}

/// Encoding a `u32` gives four bytes, and reading them back gives the value.
pub proof fn lemma_le_u32_roundtrip(x: u32)
    ensures
        le_u32(x).len() == 4,
        read_le_u32(le_u32(x)) == x,
{
    lemma_auto_spec_u32_to_from_le_bytes();
    assert(spec_u32_to_le_bytes(x).len() == 4);
}

/// Encoding a `u64` gives eight bytes, and reading them back gives the value.
pub proof fn lemma_le_u64_roundtrip(x: u64)
    ensures
        le_u64(x).len() == 8,
        read_le_u64(le_u64(x)) == x,
{
    lemma_auto_spec_u64_to_from_le_bytes();
    assert(spec_u64_to_le_bytes(x).len() == 8);
}

/// Appends the bytes of `s` to `buf`.
pub fn append_bytes(buf: &mut Vec<u8>, s: &[u8])
    ensures
        final(buf)@ == old(buf)@ + s@,
{
    let mut tail = slice_to_vec(s);
    buf.append(&mut tail);
}

/// Appends the four little-endian bytes of `x` to `buf`.
pub fn append_le_u32(buf: &mut Vec<u8>, x: u32)
    ensures
        final(buf)@ == old(buf)@ + le_u32(x),
{
    let mut tail = u32_to_le_bytes(x);
    buf.append(&mut tail);
}

/// Appends the eight little-endian bytes of `x` to `buf`.
pub fn append_le_u64(buf: &mut Vec<u8>, x: u64)
    ensures
        final(buf)@ == old(buf)@ + le_u64(x),
{
    let mut tail = u64_to_le_bytes(x);
    buf.append(&mut tail);
}

/// Reads the little-endian `u32` that starts at `pos`.
pub fn read_u32_at(buf: &[u8], pos: usize) -> (x: u32)
    requires
        pos + 4 <= buf@.len(),
    ensures
        x == read_le_u32(buf@.subrange(pos as int, pos + 4)),
{
    let _n = buf.len();
    u32_from_le_bytes(&buf[pos..pos + 4])
}

/// Reads the little-endian `u64` that starts at `pos`.
pub fn read_u64_at(buf: &[u8], pos: usize) -> (x: u64)
    requires
        pos + 8 <= buf@.len(),
    ensures
        x == read_le_u64(buf@.subrange(pos as int, pos + 8)),
{
    let _n = buf.len();
    u64_from_le_bytes(&buf[pos..pos + 8])
}

/// Decodes `bytes` as UTF-8 text.
///
/// Calls `String::from_utf8` on a copy of `bytes`. As its documentation
/// states, the call succeeds exactly when the bytes are valid UTF-8, and the
/// string then holds the characters that they encode. On failure the
/// decoder's description of the problem is returned; what that text says is
/// not stated here.
#[verifier::external_body]
pub(crate) fn utf8_to_string(bytes: &[u8]) -> (r: Result<String, String>)
    ensures
        r is Ok <==> valid_utf8(bytes@),
        r matches Ok(s) ==> s@ == decode_utf8(bytes@),
{
    String::from_utf8(bytes.to_vec()).map_err(|e| e.utf8_error().to_string())
}

} // verus!
