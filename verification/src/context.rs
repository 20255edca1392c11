//! Message contexts: metadata that travels in front of each message inside a
//! frame.
use crate::bytes::{
    append_bytes, append_le_u32, append_le_u64, le_u32, le_u64, lemma_le_u32_roundtrip,
    lemma_le_u64_roundtrip, read_le_u32, read_le_u64, read_u32_at, read_u64_at, utf8_to_string,
};
use crate::error::Error;
use vstd::prelude::*;
use vstd::utf8::*;

verus! {

broadcast use {encode_utf8_valid_utf8, encode_utf8_decode_utf8};

/// Metadata that is serialized alongside each message.
///
/// A context adds wrapper information around messages without changing the
/// message types themselves. `encoding` and `decoding` describe its wire
/// form; the executable methods follow them, and decoding what was encoded
/// gives the context back.
pub trait Context: View + Sized {
    /// The bytes that `serialize_into` appends for a context with view `v`.
    spec fn encoding(v: Self::V) -> Seq<u8>;

    /// What `deserialize` reads from the front of `buf`: the context's view and
    /// the number of bytes it occupies, or `None` when `buf` does not start
    /// with a well-formed context.
    spec fn decoding(buf: Seq<u8>) -> Option<(Self::V, nat)>;

    /// Whether a context with view `v` can be written so that reading it back
    /// gives `v` (its length fields fit their width).
    spec fn encodable(v: Self::V) -> bool;

    /// Serializes the context into the provided buffer.
    fn serialize_into(&self, buf: &mut Vec<u8>)
        ensures
            final(buf)@ == old(buf)@ + Self::encoding(self@),
    ;

    /// Deserializes the context from the front of `buf`.
    ///
    /// Returns the context and the number of bytes consumed.
    fn deserialize(buf: &[u8]) -> (r: Result<(Self, usize), Error>)
        ensures
            match r {
                Ok((c, n)) => Self::decoding(buf@) == Some((c@, n as nat)),
                Err(_) => Self::decoding(buf@) is None,
            },
    ;

    /// A decoded context never claims more bytes than the buffer holds.
    proof fn lemma_decoding_within(buf: Seq<u8>)
        ensures
            Self::decoding(buf) matches Some((_, n)) ==> n <= buf.len(),
    ;

    /// Reading an encoded context gives it back, whatever follows it.
    proof fn lemma_decoding_encoding(v: Self::V, rest: Seq<u8>)
        requires
            Self::encodable(v),
        ensures
            Self::decoding(Self::encoding(v) + rest) == Some((v, Self::encoding(v).len())),
    ;
}

/// A context that carries nothing.
///
/// Useful as the default context when no metadata is needed.
#[derive(Debug, Clone, Copy, Default)]
pub struct EmptyContext;

impl View for EmptyContext {
    type V = ();

    open spec fn view(&self) -> () {
        ()
    }
}

impl Context for EmptyContext {
    open spec fn encoding(v: ()) -> Seq<u8> {
        Seq::empty()
    }

    open spec fn decoding(buf: Seq<u8>) -> Option<((), nat)> {
        Some(((), 0))
    }

    open spec fn encodable(v: ()) -> bool {
        true
    }

    fn serialize_into(&self, buf: &mut Vec<u8>) {
        assert(buf@ == buf@ + Seq::<u8>::empty());
    }

    fn deserialize(buf: &[u8]) -> (r: Result<(Self, usize), Error>) {
        Ok((EmptyContext, 0))
    }

    proof fn lemma_decoding_within(buf: Seq<u8>) {
    }

    proof fn lemma_decoding_encoding(v: (), rest: Seq<u8>) {
    }
}

/// The UTF-8 bytes of a string's characters.
pub open spec fn utf8_bytes(s: Seq<char>) -> Seq<u8> {
    encode_utf8(s)
}

/// A length-prefixed UTF-8 string: four little-endian length bytes, then the
/// text.
pub open spec fn encode_text(s: Seq<char>) -> Seq<u8> {
    le_u32(utf8_bytes(s).len() as u32) + utf8_bytes(s)
}

/// Reads a length-prefixed UTF-8 string at `pos` of `buf`: the text and the
/// position just after it, or `None` when the bytes there are cut short or
/// are not valid UTF-8.
pub open spec fn decode_text_at(buf: Seq<u8>, pos: int) -> Option<(Seq<char>, int)> {
    if buf.len() < pos + 4 {
        None
    } else {
        let len = read_le_u32(buf.subrange(pos, pos + 4)) as int;
        if buf.len() < pos + 4 + len {
            None
        } else {
            let text = buf.subrange(pos + 4, pos + 4 + len);
            if valid_utf8(text) {
                Some((decode_utf8(text), pos + 4 + len))
            } else {
                None
            }
        }
    }
}

/// The message of the error that reading a length-prefixed string at `pos`
/// of `buf` gives when it fails: `missing_length` when fewer than four bytes
/// are left, `missing_data` when the text is cut short, and `invalid_text`
/// when the text is not valid UTF-8.
pub open spec fn text_error_at(
    buf: Seq<u8>,
    pos: int,
    missing_length: Seq<char>,
    missing_data: Seq<char>,
    invalid_text: Seq<char>,
) -> Seq<char> {
    if buf.len() < pos + 4 {
        missing_length
    } else if buf.len() < pos + 4 + read_le_u32(buf.subrange(pos, pos + 4)) {
        missing_data
    } else {
        invalid_text
    }
}

/// The message of the error that reading an RPC context from `buf` gives
/// when it fails: the first part that is missing or malformed names it.
pub open spec fn rpc_context_error(buf: Seq<u8>) -> Seq<char> {
    if buf.len() < 8 {
        "RpcContext requires at least 8 bytes for request_id"@
    } else {
        match decode_text_at(buf, 8) {
            None => text_error_at(
                buf,
                8,
                "RpcContext missing service length"@,
                "RpcContext missing service data"@,
                "Invalid service UTF-8"@,
            ),
            Some((_, pos)) => text_error_at(
                buf,
                pos,
                "RpcContext missing method length"@,
                "RpcContext missing method data"@,
                "Invalid method UTF-8"@,
            ),
        }
    }
}

/// Context for RPC messages: request/response tracking information.
#[derive(Debug, Clone, Default)]
pub struct RpcContext {
    /// The request ID for matching requests with responses.
    pub request_id: u64,
    /// The service name being called.
    pub service: String,
    /// The method name being called.
    pub method: String,
}

impl View for RpcContext {
    /// The request ID, the service name and the method name.
    type V = (u64, Seq<char>, Seq<char>);

    open spec fn view(&self) -> (u64, Seq<char>, Seq<char>) {
        (self.request_id, self.service@, self.method@)
    }
}

impl RpcContext {
    /// Creates a new RpcContext with the given request ID, service, and method.
    pub fn new(request_id: u64, service: String, method: String) -> (r: Self)
        ensures
            r.request_id == request_id,
            r.service == service,
            r.method == method,
    {
        Self { request_id, service, method }
    }
}

/// Appends a length-prefixed UTF-8 string to `buf`.
fn append_text(buf: &mut Vec<u8>, s: &str)
    ensures
        final(buf)@ == old(buf)@ + encode_text(s@),
{
    let bytes = s.as_bytes();
    append_le_u32(buf, bytes.len() as u32);
    append_bytes(buf, bytes);
}

/// Reads a length-prefixed UTF-8 string at `pos` of `buf`; the three texts
/// are the error messages for a missing length, missing data and invalid
/// UTF-8.
fn read_text_at(
    buf: &[u8],
    pos: usize,
    missing_length: &str,
    missing_data: &str,
    invalid_text: &str,
) -> (r: Result<(String, usize), Error>)
    requires
        pos <= buf@.len(),
    ensures
        match r {
            Ok((s, end)) => decode_text_at(buf@, pos as int) == Some((s@, end as int)),
            Err(e) => {
                &&& decode_text_at(buf@, pos as int) is None
                &&& e matches Error::MalformedData(m)
                &&& m@ == text_error_at(buf@, pos as int, missing_length@, missing_data@, invalid_text@)
            },
        },
{
    let n: usize = buf.len();
    if n - pos < 4 {
        return Err(Error::MalformedData(missing_length.to_owned()));
    }
    let len = read_u32_at(buf, pos) as usize;
    if n - pos - 4 < len {
        return Err(Error::MalformedData(missing_data.to_owned()));
    }
    let start = pos + 4;
    match utf8_to_string(&buf[start..start + len]) {
        Ok(s) => Ok((s, start + len)),
        Err(_) => Err(Error::MalformedData(invalid_text.to_owned())),
    }
}

impl Context for RpcContext {
    open spec fn encoding(v: (u64, Seq<char>, Seq<char>)) -> Seq<u8> {
        le_u64(v.0) + encode_text(v.1) + encode_text(v.2)
    }

    open spec fn decoding(buf: Seq<u8>) -> Option<((u64, Seq<char>, Seq<char>), nat)> {
        if buf.len() < 8 {
            None
        } else {
            let request_id = read_le_u64(buf.subrange(0, 8));
            match decode_text_at(buf, 8) {
                None => None,
                Some((service, pos)) => match decode_text_at(buf, pos) {
                    None => None,
                    Some((method, end)) => Some(((request_id, service, method), end as nat)),
                },
            }
        }
    }

    open spec fn encodable(v: (u64, Seq<char>, Seq<char>)) -> bool {
        &&& utf8_bytes(v.1).len() <= u32::MAX
        &&& utf8_bytes(v.2).len() <= u32::MAX
    }

    fn serialize_into(&self, buf: &mut Vec<u8>) {
        append_le_u64(buf, self.request_id);
        append_text(buf, self.service.as_str());
        append_text(buf, self.method.as_str());
    }

    fn deserialize(buf: &[u8]) -> (r: Result<(Self, usize), Error>)
        ensures
            r matches Err(e) ==> (e matches Error::MalformedData(m) && m@ == rpc_context_error(buf@)),
    {
        if buf.len() < 8 {
            return Err(
                Error::MalformedData(
                    "RpcContext requires at least 8 bytes for request_id".to_owned(),
                ),
            );
        }
        let request_id = read_u64_at(buf, 0);
        let (service, pos) = read_text_at(
            buf,
            8,
            "RpcContext missing service length",
            "RpcContext missing service data",
            "Invalid service UTF-8",
        )?;
        let (method, end) = read_text_at(
            buf,
            pos,
            "RpcContext missing method length",
            "RpcContext missing method data",
            "Invalid method UTF-8",
        )?;
        Ok((Self { request_id, service, method }, end))
    }

    proof fn lemma_decoding_within(buf: Seq<u8>) {
    }

    proof fn lemma_decoding_encoding(v: (u64, Seq<char>, Seq<char>), rest: Seq<u8>) {
        let buf = Self::encoding(v) + rest;
        lemma_le_u64_roundtrip(v.0);
        assert(buf.subrange(0, 8) == le_u64(v.0));
        lemma_decode_text(le_u64(v.0), v.1, encode_text(v.2) + rest);
        assert(buf == le_u64(v.0) + encode_text(v.1) + (encode_text(v.2) + rest));
        let pos = 8 + encode_text(v.1).len();
        lemma_decode_text(le_u64(v.0) + encode_text(v.1), v.2, rest);
        assert(buf == (le_u64(v.0) + encode_text(v.1)) + encode_text(v.2) + rest);
    }
}

/// Reading a length-prefixed string that was written after `prefix` gives it
/// back, whatever follows it.
proof fn lemma_decode_text(prefix: Seq<u8>, s: Seq<char>, rest: Seq<u8>)
    requires
        utf8_bytes(s).len() <= u32::MAX,
    ensures
        encode_text(s).len() == 4 + utf8_bytes(s).len(),
        decode_text_at(prefix + encode_text(s) + rest, prefix.len() as int) == Some(
            (s, (prefix.len() + encode_text(s).len()) as int),
        ),
{
    let bytes = utf8_bytes(s);
    let buf = prefix + encode_text(s) + rest;
    let p = prefix.len() as int;
    lemma_le_u32_roundtrip(bytes.len() as u32);
    assert(buf.subrange(p, p + 4) == le_u32(bytes.len() as u32));
    assert(buf.subrange(p + 4, p + 4 + bytes.len()) == bytes);
}

} // verus!
