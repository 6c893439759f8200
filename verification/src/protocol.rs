//! The events of the two interfaces that the client listens to, decoded
//! from a frame's arguments.

use crate::client::Event;
use crate::session::Msg;
use crate::output::{OutputEvent, OutputMsg};
use crate::wire::{ProtocolError, read_i32, read_string, read_u32, signed, text_arg, u32_le};
use vstd::prelude::*;

verus! {

/// Registry events.
pub const GLOBAL: u16 = 0;

pub const GLOBAL_REMOVE: u16 = 1;

/// Output events.
pub const GEOMETRY: u16 = 0;

pub const MODE: u16 = 1;

pub const DONE: u16 = 2;

pub const SCALE: u16 = 3;

pub const NAME: u16 = 4;

pub const DESCRIPTION: u16 = 5;

/// The signed argument at `at`.
pub open spec fn int_arg(p: Seq<u8>, at: int) -> i32 {
    signed(u32_le(p, at)) as i32
}

/// The unsigned argument at `at`.
pub open spec fn uint_arg(p: Seq<u8>, at: int) -> u32 {
    u32_le(p, at) as u32
}

/// The registry event with opcode `opcode` and arguments `p`. The
/// arguments must fill `p` exactly.
pub open spec fn registry_msg(opcode: u16, p: Seq<u8>) -> Result<Msg, ProtocolError> {
    if opcode == GLOBAL {
        if p.len() < 4 {
            Err(ProtocolError::BadArgument)
        } else {
            match text_arg(p, 4) {
                Some((interface, next)) => if next + 4 == p.len() {
                    Ok(Msg::Global { name: uint_arg(p, 0), interface, version: uint_arg(p, next) })
                } else {
                    Err(ProtocolError::BadArgument)
                },
                None => Err(ProtocolError::BadArgument),
            }
        }
    } else if opcode == GLOBAL_REMOVE {
        if p.len() == 4 {
            Ok(Msg::GlobalRemove { name: uint_arg(p, 0) })
        } else {
            Err(ProtocolError::BadArgument)
        }
    } else {
        Err(ProtocolError::UnknownOpcode)
    }
}

/// The geometry event that the arguments `p` spell.
pub open spec fn geometry_msg(p: Seq<u8>) -> Result<OutputMsg, ProtocolError> {
    if p.len() < 20 {
        Err(ProtocolError::BadArgument)
    } else {
        match text_arg(p, 20) {
            Some((make, after_make)) => match text_arg(p, after_make) {
                Some((model, after_model)) => if after_model + 4 == p.len() {
                    Ok(
                        OutputMsg::Geometry {
                            x: int_arg(p, 0),
                            y: int_arg(p, 4),
                            physical_width: int_arg(p, 8),
                            physical_height: int_arg(p, 12),
                            subpixel: int_arg(p, 16),
                            make,
                            model,
                            transform: int_arg(p, after_model),
                        },
                    )
                } else {
                    Err(ProtocolError::BadArgument)
                },
                None => Err(ProtocolError::BadArgument),
            },
            None => Err(ProtocolError::BadArgument),
        }
    }
}

/// The text of an event whose only argument is a string.
pub open spec fn sole_text(p: Seq<u8>) -> Option<Seq<char>> {
    match text_arg(p, 0) {
        Some((text, next)) => if next == p.len() {
            Some(text)
        } else {
            None
        },
        None => None,
    }
}

/// The output event with opcode `opcode` and arguments `p`. The arguments
/// must fill `p` exactly.
pub open spec fn output_msg(opcode: u16, p: Seq<u8>) -> Result<
    OutputMsg,
    ProtocolError,
> {
    if opcode == GEOMETRY {
        geometry_msg(p)
    } else if opcode == MODE {
        if p.len() == 16 {
            Ok(
                OutputMsg::Mode {
                    flags: uint_arg(p, 0),
                    width: int_arg(p, 4),
                    height: int_arg(p, 8),
                    refresh: int_arg(p, 12),
                },
            )
        } else {
            Err(ProtocolError::BadArgument)
        }
    } else if opcode == DONE {
        if p.len() == 0 {
            Ok(OutputMsg::Done)
        } else {
            Err(ProtocolError::BadArgument)
        }
    } else if opcode == SCALE {
        if p.len() == 4 {
            Ok(OutputMsg::Scale { factor: int_arg(p, 0) })
        } else {
            Err(ProtocolError::BadArgument)
        }
    } else if opcode == NAME {
        match sole_text(p) {
            Some(name) => Ok(OutputMsg::Name { name }),
            None => Err(ProtocolError::BadArgument),
        }
    } else if opcode == DESCRIPTION {
        match sole_text(p) {
            Some(description) => Ok(OutputMsg::Description { description }),
            None => Err(ProtocolError::BadArgument),
        }
    } else {
        Err(ProtocolError::UnknownOpcode)
    }
}

/// Whether a decoder's result is the event, or the error, that `want` says.
pub open spec fn is_output_msg(
    r: Result<OutputEvent, ProtocolError>,
    want: Result<OutputMsg, ProtocolError>,
) -> bool {
    match want {
        Ok(msg) => r is Ok && r->Ok_0@ == msg,
        Err(e) => r == Err::<OutputEvent, ProtocolError>(e),
    }
}

/// Whether a decoder's result is the event, or the error, that `want` says.
pub open spec fn is_msg(r: Result<Event, ProtocolError>, want: Result<Msg, ProtocolError>) -> bool {
    match want {
        Ok(msg) => r is Ok && r->Ok_0@ == msg,
        Err(e) => r == Err::<Event, ProtocolError>(e),
    }
}

fn read_sole_text(p: &[u8]) -> (r: Option<String>)
    ensures
        match sole_text(p@) {
            Some(text) => r is Some && r->Some_0@ == text,
            None => r is None,
        },
{
    match read_string(p, 0) {
        Some((text, next)) => if next == p.len() {
            Some(text)
        } else {
            None
        },
        None => None,
    }
}

fn decode_geometry(p: &[u8]) -> (r: Result<OutputEvent, ProtocolError>)
    ensures
        is_output_msg(r, geometry_msg(p@)),
{
    if p.len() < 20 {
        return Err(ProtocolError::BadArgument);
    }
    let (make, after_make) = match read_string(p, 20) {
        Some(found) => found,
        None => {
            return Err(ProtocolError::BadArgument);
        },
    };
    let (model, after_model) = match read_string(p, after_make) {
        Some(found) => found,
        None => {
            return Err(ProtocolError::BadArgument);
        },
    };
    if p.len() - after_model != 4 {
        return Err(ProtocolError::BadArgument);
    }
    Ok(
        OutputEvent::Geometry {
            x: read_i32(p, 0),
            y: read_i32(p, 4),
            physical_width: read_i32(p, 8),
            physical_height: read_i32(p, 12),
            subpixel: read_i32(p, 16),
            make,
            model,
            transform: read_i32(p, after_model),
        },
    )
}

/// Decodes the arguments of an event of the registry.
pub fn decode_registry_event(opcode: u16, p: &[u8]) -> (r: Result<Event, ProtocolError>)
    ensures
        is_msg(r, registry_msg(opcode, p@)),
{
    if opcode == GLOBAL {
        if p.len() < 4 {
            return Err(ProtocolError::BadArgument);
        }
        match read_string(p, 4) {
            Some((interface, next)) => {
                if p.len() - next != 4 {
                    return Err(ProtocolError::BadArgument);
                }
                Ok(Event::Global { name: read_u32(p, 0), interface, version: read_u32(p, next) })
            },
            None => Err(ProtocolError::BadArgument),
        }
    } else if opcode == GLOBAL_REMOVE {
        if p.len() != 4 {
            return Err(ProtocolError::BadArgument);
        }
        Ok(Event::GlobalRemove { name: read_u32(p, 0) })
    } else {
        Err(ProtocolError::UnknownOpcode)
    }
}

/// Decodes the arguments of an event of an output.
pub fn decode_output_event(opcode: u16, p: &[u8]) -> (r: Result<
    OutputEvent,
    ProtocolError,
>)
    ensures
        is_output_msg(r, output_msg(opcode, p@)),
{
    if opcode == GEOMETRY {
        decode_geometry(p)
    } else if opcode == MODE {
        if p.len() != 16 {
            return Err(ProtocolError::BadArgument);
        }
        Ok(
            OutputEvent::Mode {
                flags: read_u32(p, 0),
                width: read_i32(p, 4),
                height: read_i32(p, 8),
                refresh: read_i32(p, 12),
            },
        )
    } else if opcode == DONE {
        if p.len() != 0 {
            return Err(ProtocolError::BadArgument);
        }
        Ok(OutputEvent::Done)
    } else if opcode == SCALE {
        if p.len() != 4 {
            return Err(ProtocolError::BadArgument);
        }
        Ok(OutputEvent::Scale { factor: read_i32(p, 0) })
    } else if opcode == NAME {
        match read_sole_text(p) {
            Some(name) => Ok(OutputEvent::Name { name }),
            None => Err(ProtocolError::BadArgument),
        }
    } else if opcode == DESCRIPTION {
        match read_sole_text(p) {
            Some(description) => Ok(OutputEvent::Description { description }),
            None => Err(ProtocolError::BadArgument),
        }
    } else {
        Err(ProtocolError::UnknownOpcode)
    }
}

} // verus!
