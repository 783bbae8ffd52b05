//! Decoders for inbound messages.
//!
//! Every message from the server starts with a 32-byte unit.  The
//! first byte tags it: zero is an error, one is a reply (whose body
//! may carry extra 4-byte units), anything else an event, with the top
//! bit marking an event generated by a send-event request.  Each
//! decoder's contract pins every extracted field to its byte offsets.

use vstd::prelude::*;

use crate::codec::le16_val;
use crate::codec::le32_val;
use crate::codec::read_bool;
use crate::codec::read_bytes;
use crate::codec::read_i16;
use crate::codec::read_u16;
use crate::codec::read_u32;
use crate::codec::read_u8;

verus! {

/// A decoded event, carrying only the fields the manager acts on.
#[derive(Debug, Clone, Copy, PartialEq, Eq, Structural)]
pub enum ServerEvent {
    KeyPress {
        key_code: u8,
        time: u32,
        root: u32,
        event: u32,
        child: u32,
        root_x: i16,
        root_y: i16,
        event_x: i16,
        event_y: i16,
        state: u16,
        same_screen: bool,
    },
    EnterNotify {
        detail: u8,
        time: u32,
        root: u32,
        event: u32,
        child: u32,
        root_x: i16,
        root_y: i16,
        event_x: i16,
        event_y: i16,
        state: u16,
        mode: u8,
        same_screen: bool,
        focus: bool,
    },
    Expose { window: u32, x: u16, y: u16, width: u16, height: u16, count: u16 },
    DestroyNotify { event: u32, window: u32 },
    UnmapNotify { event: u32, window: u32, from_configure: bool },
    MapRequest { parent: u32, window: u32 },
    PropertyNotify { window: u32, atom: u32, time: u32, state: u8 },
    Other { code: u8 },
}

/// A decoded message: an error, a reply whose body carries `extra`
/// further 4-byte units, or an event with its generated flag.
#[derive(Debug, Clone, Copy, PartialEq, Eq, Structural)]
pub enum ServerResponse {
    Error { error_code: u8, sequence: u16 },
    Reply { sequence: u16, extra: u32 },
    Event { event: ServerEvent, sequence: u16, generated: bool },
}

/// The event a 32-byte unit with the given unmasked code denotes.
pub open spec fn spec_decode_event(code: u8, b: Seq<u8>) -> ServerEvent {
    if code == 2 {
        ServerEvent::KeyPress {
            key_code: b[1],
            time: le32_val(b[4], b[5], b[6], b[7]),
            root: le32_val(b[8], b[9], b[10], b[11]),
            event: le32_val(b[12], b[13], b[14], b[15]),
            child: le32_val(b[16], b[17], b[18], b[19]),
            root_x: le16_val(b[20], b[21]) as i16,
            root_y: le16_val(b[22], b[23]) as i16,
            event_x: le16_val(b[24], b[25]) as i16,
            event_y: le16_val(b[26], b[27]) as i16,
            state: le16_val(b[28], b[29]),
            same_screen: b[30] == 1,
        }
    } else if code == 7 {
        ServerEvent::EnterNotify {
            detail: b[1],
            time: le32_val(b[4], b[5], b[6], b[7]),
            root: le32_val(b[8], b[9], b[10], b[11]),
            event: le32_val(b[12], b[13], b[14], b[15]),
            child: le32_val(b[16], b[17], b[18], b[19]),
            root_x: le16_val(b[20], b[21]) as i16,
            root_y: le16_val(b[22], b[23]) as i16,
            event_x: le16_val(b[24], b[25]) as i16,
            event_y: le16_val(b[26], b[27]) as i16,
            state: le16_val(b[28], b[29]),
            mode: b[30],
            same_screen: b[31] & 2 != 0,
            focus: b[31] & 1 != 0,
        }
    } else if code == 12 {
        ServerEvent::Expose {
            window: le32_val(b[4], b[5], b[6], b[7]),
            x: le16_val(b[8], b[9]),
            y: le16_val(b[10], b[11]),
            width: le16_val(b[12], b[13]),
            height: le16_val(b[14], b[15]),
            count: le16_val(b[16], b[17]),
        }
    } else if code == 17 {
        ServerEvent::DestroyNotify {
            event: le32_val(b[4], b[5], b[6], b[7]),
            window: le32_val(b[8], b[9], b[10], b[11]),
        }
    } else if code == 18 {
        ServerEvent::UnmapNotify {
            event: le32_val(b[4], b[5], b[6], b[7]),
            window: le32_val(b[8], b[9], b[10], b[11]),
            from_configure: b[12] == 1,
        }
    } else if code == 20 {
        ServerEvent::MapRequest {
            parent: le32_val(b[4], b[5], b[6], b[7]),
            window: le32_val(b[8], b[9], b[10], b[11]),
        }
    } else if code == 28 {
        ServerEvent::PropertyNotify {
            window: le32_val(b[4], b[5], b[6], b[7]),
            atom: le32_val(b[8], b[9], b[10], b[11]),
            time: le32_val(b[12], b[13], b[14], b[15]),
            state: b[16],
        }
    } else {
        ServerEvent::Other { code }
    }
}

/// The message a 32-byte unit denotes, or nothing when a boolean
/// field holds a byte other than 0 or 1: such a unit is malformed, and
/// a malformed message leaves the byte stream unrecoverable.
pub open spec fn spec_decode_message(b: Seq<u8>) -> Option<ServerResponse> {
    if b[0] == 0 {
        Some(ServerResponse::Error { error_code: b[1], sequence: le16_val(b[2], b[3]) })
    } else if b[0] == 1 {
        Some(
            ServerResponse::Reply {
                sequence: le16_val(b[2], b[3]),
                extra: le32_val(b[4], b[5], b[6], b[7]),
            },
        )
    } else {
        let code = (b[0] & 0x7F) as u8;
        if code == 2 && b[30] > 1 {
            None
        } else if code == 18 && b[12] > 1 {
            None
        } else {
            Some(
                ServerResponse::Event {
                    event: spec_decode_event(code, b),
                    sequence: le16_val(b[2], b[3]),
                    generated: b[0] & 0x80 != 0,
                },
            )
        }
    }
}

/// Decodes the leading 32-byte unit of a message; fails on a
/// malformed boolean byte.
pub fn decode_message(bytes: &Vec<u8>) -> (r: Option<ServerResponse>)
    requires
        bytes.len() >= 32,
    ensures
        r == spec_decode_message(bytes@),
{
    let tag = read_u8(bytes, 0);
    if tag == 0 {
        Some(ServerResponse::Error { error_code: read_u8(bytes, 1), sequence: read_u16(bytes, 2) })
    } else if tag == 1 {
        Some(ServerResponse::Reply { sequence: read_u16(bytes, 2), extra: read_u32(bytes, 4) })
    } else {
        let code = tag & 0x7F;
        let generated = tag & 0x80 != 0;
        let sequence = read_u16(bytes, 2);
        if code == 2 && read_u8(bytes, 30) > 1 {
            return None;
        }
        if code == 18 && read_u8(bytes, 12) > 1 {
            return None;
        }
        let event = if code == 2 {
            ServerEvent::KeyPress {
                key_code: read_u8(bytes, 1),
                time: read_u32(bytes, 4),
                root: read_u32(bytes, 8),
                event: read_u32(bytes, 12),
                child: read_u32(bytes, 16),
                root_x: read_i16(bytes, 20),
                root_y: read_i16(bytes, 22),
                event_x: read_i16(bytes, 24),
                event_y: read_i16(bytes, 26),
                state: read_u16(bytes, 28),
                same_screen: read_bool(bytes, 30),
            }
        } else if code == 7 {
            let flags = read_u8(bytes, 31);
            ServerEvent::EnterNotify {
                detail: read_u8(bytes, 1),
                time: read_u32(bytes, 4),
                root: read_u32(bytes, 8),
                event: read_u32(bytes, 12),
                child: read_u32(bytes, 16),
                root_x: read_i16(bytes, 20),
                root_y: read_i16(bytes, 22),
                event_x: read_i16(bytes, 24),
                event_y: read_i16(bytes, 26),
                state: read_u16(bytes, 28),
                mode: read_u8(bytes, 30),
                same_screen: flags & 2 != 0,
                focus: flags & 1 != 0,
            }
        } else if code == 12 {
            ServerEvent::Expose {
                window: read_u32(bytes, 4),
                x: read_u16(bytes, 8),
                y: read_u16(bytes, 10),
                width: read_u16(bytes, 12),
                height: read_u16(bytes, 14),
                count: read_u16(bytes, 16),
            }
        } else if code == 17 {
            ServerEvent::DestroyNotify { event: read_u32(bytes, 4), window: read_u32(bytes, 8) }
        } else if code == 18 {
            ServerEvent::UnmapNotify {
                event: read_u32(bytes, 4),
                window: read_u32(bytes, 8),
                from_configure: read_bool(bytes, 12),
            }
        } else if code == 20 {
            ServerEvent::MapRequest { parent: read_u32(bytes, 4), window: read_u32(bytes, 8) }
        } else if code == 28 {
            ServerEvent::PropertyNotify {
                window: read_u32(bytes, 4),
                atom: read_u32(bytes, 8),
                time: read_u32(bytes, 12),
                state: read_u8(bytes, 16),
            }
        } else {
            ServerEvent::Other { code }
        };
        Some(ServerResponse::Event { event, sequence, generated })
    }
}

/// Relies on the intern-atom reply layout: the atom sits in bytes 8
/// through 11 of the reply's leading unit.
pub fn decode_intern_atom_reply(bytes: &Vec<u8>) -> (r: u32)
    requires
        bytes.len() >= 32,
    ensures
        r == le32_val(bytes@[8], bytes@[9], bytes@[10], bytes@[11]),
{
    read_u32(bytes, 8)
}

/// The fields of a get-geometry reply.
#[derive(Debug, Clone, Copy, PartialEq, Eq, Structural)]
pub struct GeometryReply {
    pub depth: u8,
    pub root: u32,
    pub x: i16,
    pub y: i16,
    pub width: u16,
    pub height: u16,
    pub border_width: u16,
}

/// Decodes a get-geometry reply from its leading 32-byte unit.
pub fn decode_get_geometry_reply(bytes: &Vec<u8>) -> (r: GeometryReply)
    requires
        bytes.len() >= 32,
    ensures
        r.depth == bytes@[1],
        r.root == le32_val(bytes@[8], bytes@[9], bytes@[10], bytes@[11]),
        r.x == le16_val(bytes@[12], bytes@[13]) as i16,
        r.y == le16_val(bytes@[14], bytes@[15]) as i16,
        r.width == le16_val(bytes@[16], bytes@[17]),
        r.height == le16_val(bytes@[18], bytes@[19]),
        r.border_width == le16_val(bytes@[20], bytes@[21]),
{
    GeometryReply {
        depth: read_u8(bytes, 1),
        root: read_u32(bytes, 8),
        x: read_i16(bytes, 12),
        y: read_i16(bytes, 14),
        width: read_u16(bytes, 16),
        height: read_u16(bytes, 18),
        border_width: read_u16(bytes, 20),
    }
}

/// The fields of a get-window-attributes reply the manager reads.
#[derive(Debug, Clone, Copy, PartialEq, Eq, Structural)]
pub struct WindowAttributesReply {
    pub visual_id: u32,
    pub class: u16,
}

/// Decodes a get-window-attributes reply from its leading unit.
pub fn decode_get_window_attributes_reply(bytes: &Vec<u8>) -> (r: WindowAttributesReply)
    requires
        bytes.len() >= 32,
    ensures
        r.visual_id == le32_val(bytes@[8], bytes@[9], bytes@[10], bytes@[11]),
        r.class == le16_val(bytes@[12], bytes@[13]),
{
    WindowAttributesReply { visual_id: read_u32(bytes, 8), class: read_u16(bytes, 12) }
}

/// Decodes the value carried by a get-property reply: the format sits
/// in byte 1, the value length in format units at bytes 16 through 19,
/// and the value itself at the start of the extra body.  Fails when
/// the body is shorter than the announced value.
pub fn decode_get_property_value(head: &Vec<u8>, body: &Vec<u8>) -> (r: Option<Vec<u8>>)
    requires
        head.len() >= 32,
    ensures
        (match r {
            Some(v) => {
                let n = le32_val(head@[16], head@[17], head@[18], head@[19]) as int * (
                head@[1] as int / 8);
                &&& n <= body@.len()
                &&& v@ == body@.subrange(0, n)
            },
            None => le32_val(head@[16], head@[17], head@[18], head@[19]) as int * (head@[1] as int
                / 8) > body@.len(),
        }),
{
    let format = read_u8(head, 1);
    let value_len = read_u32(head, 16);
    let unit = (format / 8) as u64;
    proof {
        assert((value_len as int) * (unit as int) <= 0xFFFF_FFFFint * 255) by (nonlinear_arith)
            requires
                0 <= value_len <= 0xFFFF_FFFF,
                0 <= unit <= 255,
        ;
    }
    let n64 = value_len as u64 * unit;
    if n64 > body.len() as u64 {
        return None;
    }
    Some(read_bytes(body, 0, n64 as usize))
}

} // verus!
