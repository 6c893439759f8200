//! The one request that the client sends for an output: the bind, as the
//! bytes of its frame.

use crate::session::{BindRequest, REGISTRY_ID};
use crate::wire::{FrameHeader, header_of, string_arg, u32_le};
use vstd::prelude::*;

verus! {

/// The opcode of the registry's bind request.
pub const BIND: u16 = 0;

/// The size of a bind frame for the output interface: the header, the
/// global's name, the interface as a string of ten bytes padded to twelve,
/// the version and the new id.
pub const BIND_FRAME_SIZE: u16 = 36;

/// The second header word of a bind frame: the size in the high half, the
/// opcode in the low half.
pub const BIND_HEADER_WORD: u32 = 0x0024_0000;

/// The four bytes of a word, lowest first.
pub open spec fn word_bytes(v: u32) -> Seq<u8> {
    seq![
        (v % 256) as u8,
        (v / 256 % 256) as u8,
        (v / 65536 % 256) as u8,
        (v / 16777216) as u8,
    ]
}

/// The interface name of an output as a string argument: length word,
/// text, terminator and padding.
pub open spec fn output_interface_arg() -> Seq<u8> {
    seq![10u8, 0u8, 0u8, 0u8, 119u8, 108u8, 95u8, 111u8, 117u8, 116u8, 112u8, 117u8, 116u8, 0u8, 0u8, 0u8]
}

/// The text of the interface name, as bytes.
pub open spec fn output_interface_text() -> Seq<u8> {
    seq![119u8, 108u8, 95u8, 111u8, 117u8, 116u8, 112u8, 117u8, 116u8]
}

/// The frame of a bind request.
pub open spec fn bind_frame(req: BindRequest) -> Seq<u8> {
    word_bytes(REGISTRY_ID) + word_bytes(BIND_HEADER_WORD) + word_bytes(req.name)
        + output_interface_arg() + word_bytes(req.version) + word_bytes(req.new_id)
}

/// Appends a word, lowest byte first.
pub fn push_u32(out: &mut Vec<u8>, v: u32)
    ensures
        final(out)@ == old(out)@ + word_bytes(v),
{
    out.push((v % 256) as u8);
    out.push((v / 256 % 256) as u8);
    out.push((v / 65536 % 256) as u8);
    out.push((v / 16777216) as u8);
    assert(out@ =~= old(out)@ + word_bytes(v));
}

/// A word that was written is read back as it was.
pub proof fn word_reads_back(b: Seq<u8>, at: int, v: u32)
    requires
        0 <= at,
        at + 4 <= b.len(),
        b.subrange(at, at + 4) == word_bytes(v),
    ensures
        u32_le(b, at) == v,
{
    let w = b.subrange(at, at + 4);
    assert(w[0] == b[at] && w[1] == b[at + 1] && w[2] == b[at + 2] && w[3] == b[at + 3]);
}

/// Writes the frame of a bind request.
pub fn encode_bind(req: &BindRequest) -> (r: Vec<u8>)
    ensures
        r@ == bind_frame(*req),
        r@.len() == BIND_FRAME_SIZE,
{
    let mut out: Vec<u8> = Vec::new();
    push_u32(&mut out, REGISTRY_ID);
    push_u32(&mut out, BIND_HEADER_WORD);
    push_u32(&mut out, req.name);
    push_u32(&mut out, 10);
    let ghost head = out@;
    out.push(119);
    out.push(108);
    out.push(95);
    out.push(111);
    out.push(117);
    out.push(116);
    out.push(112);
    out.push(117);
    out.push(116);
    out.push(0);
    out.push(0);
    out.push(0);
    assert(word_bytes(10) =~= seq![10u8, 0u8, 0u8, 0u8]);
    assert(out@ =~= word_bytes(REGISTRY_ID) + word_bytes(BIND_HEADER_WORD) + word_bytes(req.name)
        + output_interface_arg());
    push_u32(&mut out, req.version);
    push_u32(&mut out, req.new_id);
    out
}

/// A bind frame is a well-formed frame to the registry, and its arguments
/// read back as the request's fields.
pub proof fn bind_frame_reads_back(req: BindRequest)
    ensures
        header_of(bind_frame(req)) == Ok::<FrameHeader, crate::wire::ProtocolError>(
            FrameHeader { object_id: REGISTRY_ID, opcode: BIND, size: BIND_FRAME_SIZE },
        ),
        u32_le(bind_frame(req), 8) == req.name,
        string_arg(bind_frame(req), 12) == Some((output_interface_text(), 28int)),
        u32_le(bind_frame(req), 28) == req.version,
        u32_le(bind_frame(req), 32) == req.new_id,
{
    let f = bind_frame(req);
    assert(f.len() == 36);
    assert(f.subrange(0, 4) =~= word_bytes(REGISTRY_ID));
    assert(f.subrange(4, 8) =~= word_bytes(BIND_HEADER_WORD));
    assert(f.subrange(8, 12) =~= word_bytes(req.name));
    assert(f.subrange(12, 16) =~= word_bytes(10));
    assert(f.subrange(28, 32) =~= word_bytes(req.version));
    assert(f.subrange(32, 36) =~= word_bytes(req.new_id));
    word_reads_back(f, 0, REGISTRY_ID);
    word_reads_back(f, 4, BIND_HEADER_WORD);
    word_reads_back(f, 8, req.name);
    word_reads_back(f, 12, 10);
    word_reads_back(f, 28, req.version);
    word_reads_back(f, 32, req.new_id);
    assert(f[25] == 0);
    assert(f.subrange(16, 25) =~= output_interface_text());
}

} // verus!
