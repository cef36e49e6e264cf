//! Length-prefixed framing of daemon messages: a four-byte big-endian
//! length followed by the message body.
use crate::chunking::types::lit;
use crate::text::{decimal, push_decimal, push_str};
use vstd::prelude::*;

verus! {

/// The largest message body, in bytes, that `decode_frame_len` accepts.
pub const DAEMON_MAX_MESSAGE_BYTES: usize = 1048576;

/// The big-endian bytes of `n`.
pub open spec fn be_bytes(n: u32) -> Seq<u8> {
    seq![(n >> 24u32) as u8, ((n >> 16u32) & 0xffu32) as u8, ((n >> 8u32) & 0xffu32) as u8, (n & 0xffu32) as u8]
}

/// The number whose big-endian bytes are `a b c d`.
pub open spec fn be_value(a: u8, b: u8, c: u8, d: u8) -> u32 {
    ((a as u32) << 24u32) | ((b as u32) << 16u32) | ((c as u32) << 8u32) | (d as u32)
}

/// Reading back the bytes of a length gives the length.
pub proof fn lemma_be_roundtrip(n: u32)
    ensures
        be_value(be_bytes(n)[0], be_bytes(n)[1], be_bytes(n)[2], be_bytes(n)[3]) == n,
{
    let a = (n >> 24u32) as u8;
    let b = ((n >> 16u32) & 0xffu32) as u8;
    let c = ((n >> 8u32) & 0xffu32) as u8;
    let d = (n & 0xffu32) as u8;
    assert(((a as u32) << 24u32) | ((b as u32) << 16u32) | ((c as u32) << 8u32) | (d as u32) == n)
        by (bit_vector)
        requires
            a == (n >> 24u32) as u8,
            b == ((n >> 16u32) & 0xffu32) as u8,
            c == ((n >> 8u32) & 0xffu32) as u8,
            d == (n & 0xffu32) as u8,
    ;
}

/// The header of a frame announces the length of the body it carries:
/// reading back the first four bytes of an encoded body gives its length,
/// which `decode_frame_len` accepts whenever it is within the limit.
pub proof fn lemma_frame_header_roundtrip(body: Seq<u8>)
    requires
        body.len() <= u32::MAX,
    ensures
        ({
            let f = be_bytes(body.len() as u32) + body;
            &&& f.len() == body.len() + 4
            &&& be_value(f[0], f[1], f[2], f[3]) == body.len()
            &&& f.subrange(4, f.len() as int) == body
        }),
{
    let f = be_bytes(body.len() as u32) + body;
    lemma_be_roundtrip(body.len() as u32);
    assert(f.subrange(4, f.len() as int) =~= body);
}

pub open spec fn too_large_message() -> Seq<char> {
    "daemon message too large"@
}

/// The frame of a body: its length in four big-endian bytes, then the
/// body. Bodies longer than `u32::MAX` bytes cannot be framed.
pub fn encode_framed_message(body: &[u8]) -> (r: Result<Vec<u8>, String>)
    ensures
        body@.len() <= u32::MAX ==> r is Ok && r->Ok_0@ == be_bytes(body@.len() as u32) + body@,
        body@.len() > u32::MAX ==> r is Err && r->Err_0@ == too_large_message(),
{
    if body.len() > 4294967295 {
        return Err(lit("daemon message too large"));
    }
    let len = body.len() as u32;
    let mut framed: Vec<u8> = Vec::new();
    framed.push((len >> 24u32) as u8);
    framed.push(((len >> 16u32) & 0xffu32) as u8);
    framed.push(((len >> 8u32) & 0xffu32) as u8);
    framed.push((len & 0xffu32) as u8);
    assert(framed@ =~= be_bytes(len));
    let mut i: usize = 0;
    while i < body.len()
        invariant
            0 <= i <= body@.len(),
            len == body@.len(),
            framed@ == be_bytes(len) + body@.take(i as int),
        decreases body.len() - i,
    {
        framed.push(body[i]);
        assert(body@.take(i + 1) =~= body@.take(i as int).push(body@[i as int]));
        i = i + 1;
    }
    assert(body@.take(body@.len() as int) =~= body@);
    Ok(framed)
}

/// The message of a frame whose announced length is over the limit.
pub open spec fn oversize_message(len: u32) -> Seq<char> {
    "daemon message too large: "@ + decimal(len as nat) + " bytes exceeds limit 1048576"@
}

/// The body length announced by a frame header; lengths over
/// `DAEMON_MAX_MESSAGE_BYTES` are refused.
pub fn decode_frame_len(header: [u8; 4]) -> (r: Result<usize, String>)
    ensures
        ({
            let len = be_value(header@[0], header@[1], header@[2], header@[3]);
            &&& len <= DAEMON_MAX_MESSAGE_BYTES ==> r == Ok::<usize, String>(len as usize)
            &&& len > DAEMON_MAX_MESSAGE_BYTES ==> r is Err && r->Err_0@ == oversize_message(len)
        }),
{
    let len = frame_body_len(header.as_slice());
    if len as usize > DAEMON_MAX_MESSAGE_BYTES {
        let mut msg = lit("daemon message too large: ");
        push_decimal(&mut msg, len as u64);
        push_str(&mut msg, " bytes exceeds limit 1048576");
        return Err(msg);
    }
    Ok(len as usize)
}

/// The body length a four-byte frame header announces, read big-endian,
/// with no limit applied.
pub fn frame_body_len(header: &[u8]) -> (n: u32)
    requires
        header@.len() == 4,
    ensures
        n == be_value(header@[0], header@[1], header@[2], header@[3]),
{
    let a = header[0];
    let b = header[1];
    let c = header[2];
    let d = header[3];
    ((a as u32) << 24u32) | ((b as u32) << 16u32) | ((c as u32) << 8u32) | (d as u32)
}

/// `Write::write_all` of the whole buffer; the I/O error is turned into
/// its message.
#[verifier::external_body]
fn write_all_bytes<W: std::io::Write>(writer: &mut W, bytes: &[u8]) -> Result<(), String> {
    match writer.write_all(bytes) {
        Ok(()) => Ok(()),
        Err(err) => Err(err.to_string()),
    }
}

/// `Read::read_exact` into a buffer of `n` bytes: on success the buffer is
/// full. What was read depends on the reader and is not stated.
#[verifier::external_body]
fn read_exact_bytes<R: std::io::Read>(reader: &mut R, n: usize) -> (r: Result<Vec<u8>, String>)
    ensures
        r is Ok ==> r->Ok_0@.len() == n,
{
    let mut buf = vec![0u8; n];
    match reader.read_exact(&mut buf) {
        Ok(()) => Ok(buf),
        Err(err) => Err(err.to_string()),
    }
}

/// Writes the frame of `body`.
pub fn write_framed_message<W: std::io::Write>(writer: &mut W, body: &[u8]) -> (r: Result<
    (),
    String,
>)
    ensures
        body@.len() > u32::MAX ==> r is Err && r->Err_0@ == too_large_message(),
{
    let framed = match encode_framed_message(body) {
        Ok(f) => f,
        Err(e) => {
            return Err(e);
        },
    };
    write_all_bytes(writer, framed.as_slice())
}

/// Reads the four bytes of a frame header.
pub fn read_frame_header<R: std::io::Read>(reader: &mut R) -> (r: Result<Vec<u8>, String>)
    ensures
        r is Ok ==> r->Ok_0@.len() == 4,
{
    read_exact_bytes(reader, 4)
}

/// Reads the body that `header` announces: exactly
/// [`frame_body_len`]`(header)` bytes, with no limit applied.
pub fn read_frame_body<R: std::io::Read>(reader: &mut R, header: &[u8]) -> (r: Result<Vec<u8>, String>)
    requires
        header@.len() == 4,
    ensures
        r is Ok ==> r->Ok_0@.len() == be_value(header@[0], header@[1], header@[2], header@[3]),
{
    let len = frame_body_len(header);
    read_exact_bytes(reader, len as usize)
}

/// Reads one frame and returns its body, whatever its length: the header
/// ([`read_frame_header`]) announces the length and exactly that many bytes
/// are read after it ([`read_frame_body`]).
pub fn read_framed_message<R: std::io::Read>(reader: &mut R) -> (r: Result<Vec<u8>, String>)
    ensures
        r is Ok ==> exists|h: Seq<u8>|
            h.len() == 4 && r->Ok_0@.len() == be_value(h[0], h[1], h[2], h[3]),
{
    let header = match read_frame_header(reader) {
        Ok(h) => h,
        Err(e) => {
            return Err(e);
        },
    };
    let body = match read_frame_body(reader, header.as_slice()) {
        Ok(b) => b,
        Err(e) => {
            return Err(e);
        },
    };
    assert(body@.len() == be_value(header@[0], header@[1], header@[2], header@[3]));
    Ok(body)
}

} // verus!
