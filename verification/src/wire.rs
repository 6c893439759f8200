//! Framing of protocol messages: little-endian words, the two-word header
//! and length-prefixed strings.

use vstd::prelude::*;
use vstd::slice::slice_subrange;
use vstd::utf8::*;

verus! {

/// Why a frame was rejected. Every variant ends the session.
#[derive(Debug, Clone, Copy, PartialEq, Eq, Structural)]
pub enum ProtocolError {
    /// Fewer bytes than the header, or than the header's size, are present.
    Truncated,
    /// The declared frame size is under a header or not a multiple of four.
    BadSize,
    /// The frame addresses an object id that the client does not know.
    UnknownObject,
    /// The interface of the addressed object has no event with this opcode.
    UnknownOpcode,
    /// The arguments do not match the opcode's signature.
    BadArgument,
    /// No client-side object id is left to allocate.
    IdsExhausted,
}

/// The two header words of a frame.
#[derive(Debug, Clone, Copy, PartialEq, Eq, Structural)]
pub struct FrameHeader {
    pub object_id: u32,
    pub opcode: u16,
    /// Total size of the frame in bytes, header included.
    pub size: u16,
}

/// The little-endian word that starts at `at`.
pub open spec fn u32_le(b: Seq<u8>, at: int) -> int {
    b[at] as int + 256 * (b[at + 1] as int) + 65536 * (b[at + 2] as int) + 16777216 * (b[at
        + 3] as int)
}

/// A word read as a two's-complement signed number.
pub open spec fn signed(u: int) -> int {
    if u < 0x8000_0000 {
        u
    } else {
        u - 0x1_0000_0000
    }
}

/// `n` rounded up to the next multiple of four.
pub open spec fn padded(n: int) -> int {
    (n + 3) / 4 * 4
}

/// What the first eight bytes of `b` say, if they head a well-formed frame
/// that `b` holds completely.
pub open spec fn header_of(b: Seq<u8>) -> Result<FrameHeader, ProtocolError> {
    if b.len() < 8 {
        Err(ProtocolError::Truncated)
    } else {
        let word = u32_le(b, 4);
        let size = word / 65536;
        if size < 8 || size % 4 != 0 {
            Err(ProtocolError::BadSize)
        } else if size > b.len() {
            Err(ProtocolError::Truncated)
        } else {
            Ok(
                FrameHeader {
                    object_id: u32_le(b, 0) as u32,
                    opcode: (word % 65536) as u16,
                    size: size as u16,
                },
            )
        }
    }
}

/// The string argument that starts at `at`: its bytes without the
/// terminator, and the offset of the argument after it. `None` where the
/// length word, the padding or the terminator is missing.
pub open spec fn string_arg(b: Seq<u8>, at: int) -> Option<(Seq<u8>, int)> {
    if at + 4 > b.len() {
        None
    } else {
        let n = u32_le(b, at);
        if n == 0 || at + 4 + padded(n) > b.len() || b[at + 4 + n - 1] != 0 {
            None
        } else {
            Some((b.subrange(at + 4, at + 4 + n - 1), at + 4 + padded(n)))
        }
    }
}

/// The text of the string argument at `at` and the offset after it, where
/// the argument is well formed and its bytes are UTF-8.
pub open spec fn text_arg(b: Seq<u8>, at: int) -> Option<(Seq<char>, int)> {
    match string_arg(b, at) {
        Some((bytes, next)) => if valid_utf8(bytes) {
            Some((decode_utf8(bytes), next))
        } else {
            None
        },
        None => None,
    }
}

/// Reads the little-endian word at `at`.
pub fn read_u32(buf: &[u8], at: usize) -> (r: u32)
    requires
        at + 4 <= buf@.len(),
    ensures
        r as int == u32_le(buf@, at as int),
{
    let b0: u32 = buf[at] as u32;
    let b1: u32 = buf[at + 1] as u32;
    let b2: u32 = buf[at + 2] as u32;
    let b3: u32 = buf[at + 3] as u32;
    b0 + b1 * 256 + b2 * 65536 + b3 * 16777216
}

/// Reads a word as a two's-complement signed number.
pub fn to_i32(u: u32) -> (r: i32)
    ensures
        r as int == signed(u as int),
{
    if u < 0x8000_0000 {
        u as i32
    } else {
        ((u - 0x8000_0000) as i32) + i32::MIN
    }
}

/// Reads the signed little-endian word at `at`.
pub fn read_i32(buf: &[u8], at: usize) -> (r: i32)
    requires
        at + 4 <= buf@.len(),
    ensures
        r as int == signed(u32_le(buf@, at as int)),
{
    to_i32(read_u32(buf, at))
}

/// Reads the header of the frame that `buf` starts with.
pub fn decode_header(buf: &[u8]) -> (r: Result<FrameHeader, ProtocolError>)
    ensures
        r == header_of(buf@),
{
    if buf.len() < 8 {
        return Err(ProtocolError::Truncated);
    }
    let object_id: u32 = read_u32(buf, 0);
    let word: u32 = read_u32(buf, 4);
    let size: u32 = word / 65536;
    if size < 8 || size % 4 != 0 {
        return Err(ProtocolError::BadSize);
    }
    if size as usize > buf.len() {
        return Err(ProtocolError::Truncated);
    }
    Ok(FrameHeader { object_id, opcode: (word % 65536) as u16, size: size as u16 })
}

/// `String::from_utf8` on a copy of `bytes`: `Some` exactly for well-formed
/// UTF-8, and then the characters that the bytes encode.
#[verifier::external_body]
fn utf8_text(bytes: &[u8]) -> (r: Option<String>)
    ensures
        r is Some <==> valid_utf8(bytes@),
        r is Some ==> r->0@ == decode_utf8(bytes@),
{
    String::from_utf8(bytes.to_vec()).ok()
}

/// Reads the string argument at `at`.
pub fn read_string(buf: &[u8], at: usize) -> (r: Option<(String, usize)>)
    requires
        at <= buf@.len(),
    ensures
        match text_arg(buf@, at as int) {
            Some((text, next)) => match r {
                Some((s, end)) => s@ == text && end == next,
                None => false,
            },
            None => r is None,
        },
{
    if buf.len() - at < 4 {
        return None;
    }
    let n: u32 = read_u32(buf, at);
    let room: usize = buf.len() - at - 4;
    let span: u64 = (n as u64 + 3) / 4 * 4;
    if n == 0 || span > room as u64 {
        return None;
    }
    let last: usize = at + 4 + (n as usize - 1);
    if buf[last] != 0 {
        return None;
    }
    let bytes = slice_subrange(buf, at + 4, last);
    match utf8_text(bytes) {
        Some(text) => Some((text, at + 4 + span as usize)),
        None => None,
    }
}

} // verus!
