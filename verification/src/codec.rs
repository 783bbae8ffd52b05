//! Byte-level writers and readers for the wire format.
//!
//! Every integer on the wire is little-endian and fixed-width.  The
//! writers append to a growing byte buffer; the readers take a byte
//! buffer and a cursor position.  Each function's contract pins the
//! exact bytes written or the exact value read.

use vstd::prelude::*;

use crate::models::BitGravity;
use crate::models::Value;
use crate::models::Valued;
use crate::models::Window;
use crate::models::WindowInputType;
use crate::models::WindowValue;
use crate::models::WindowValueBackingStore;
use crate::models::WindowGravity;

verus! {

/// The two little-endian bytes of a 16-bit value, least significant first.
pub open spec fn u16_le(x: u16) -> Seq<u8> {
    seq![(x % 256) as u8, (x / 256) as u8]
}

/// The four little-endian bytes of a 32-bit value, least significant first.
pub open spec fn u32_le(x: u32) -> Seq<u8> {
    seq![
        (x % 256) as u8,
        ((x / 256) % 256) as u8,
        ((x / 65536) % 256) as u8,
        (x / 16777216) as u8,
    ]
}

/// The 16-bit value denoted by two little-endian bytes.
pub open spec fn le16_val(b0: u8, b1: u8) -> u16 {
    (b0 + 256 * b1) as u16
}

/// The 32-bit value denoted by four little-endian bytes.
pub open spec fn le32_val(b0: u8, b1: u8, b2: u8, b3: u8) -> u32 {
    (b0 + 256 * b1 + 65536 * b2 + 16777216 * b3) as u32
}

/// A run of `n` zero pad bytes.
pub open spec fn pad_bytes(n: nat) -> Seq<u8> {
    Seq::new(n, |i: int| 0u8)
}

/// Encoding then decoding a 16-bit value is the identity.
pub proof fn lemma_u16_le_round_trip(x: u16)
    ensures
        le16_val(u16_le(x)[0], u16_le(x)[1]) == x,
{
}

/// Encoding then decoding a 32-bit value is the identity.
pub proof fn lemma_u32_le_round_trip(x: u32)
    ensures
        le32_val(u32_le(x)[0], u32_le(x)[1], u32_le(x)[2], u32_le(x)[3]) == x,
{
}

/// Appends one byte.
pub fn write_u8(buf: &mut Vec<u8>, x: u8)
    ensures
        final(buf)@ == old(buf)@.push(x),
{
    buf.push(x);
}

/// Appends a boolean as a single byte, 1 for true and 0 for false.
pub fn write_bool(buf: &mut Vec<u8>, x: bool)
    ensures
        final(buf)@ == old(buf)@.push(if x { 1u8 } else { 0u8 }),
{
    buf.push(if x { 1u8 } else { 0u8 });
}

/// Appends a 16-bit value, least significant byte first.
pub fn write_u16(buf: &mut Vec<u8>, x: u16)
    ensures
        final(buf)@ == old(buf)@ + u16_le(x),
{
    buf.push((x % 256) as u8);
    buf.push((x / 256) as u8);
    assert(buf@ =~= old(buf)@ + u16_le(x));
}

/// Appends a signed 16-bit value in two's complement, least significant
/// byte first.
pub fn write_i16(buf: &mut Vec<u8>, x: i16)
    ensures
        final(buf)@ == old(buf)@ + u16_le(x as u16),
{
    write_u16(buf, x as u16);
}

/// Appends a 32-bit value, least significant byte first.
pub fn write_u32(buf: &mut Vec<u8>, x: u32)
    ensures
        final(buf)@ == old(buf)@ + u32_le(x),
{
    buf.push((x % 256) as u8);
    buf.push(((x / 256) % 256) as u8);
    buf.push(((x / 65536) % 256) as u8);
    buf.push((x / 16777216) as u8);
    assert(buf@ =~= old(buf)@ + u32_le(x));
}

/// Appends `len` zero bytes.
pub fn write_pad(buf: &mut Vec<u8>, len: usize)
    ensures
        final(buf)@ == old(buf)@ + pad_bytes(len as nat),
{
    let mut i: usize = 0;
    while i < len
        invariant
            i <= len,
            buf@ == old(buf)@ + pad_bytes(i as nat),
        decreases len - i,
    {
        buf.push(0u8);
        i = i + 1;
        assert(buf@ =~= old(buf)@ + pad_bytes(i as nat));
    }
}

/// Reads the byte at `pos`.
pub fn read_u8(bytes: &Vec<u8>, pos: usize) -> (r: u8)
    requires
        pos < bytes.len(),
    ensures
        r == bytes@[pos as int],
{
    bytes[pos]
}

/// Reads the two little-endian bytes at `pos` as a 16-bit value.
pub fn read_u16(bytes: &Vec<u8>, pos: usize) -> (r: u16)
    requires
        pos + 2 <= bytes.len(),
    ensures
        r == le16_val(bytes@[pos as int], bytes@[pos as int + 1]),
{
    let b0 = bytes[pos];
    let b1 = bytes[pos + 1];
    b0 as u16 + 256 * (b1 as u16)
}

/// Reads the two little-endian bytes at `pos` as a signed 16-bit value
/// in two's complement.
pub fn read_i16(bytes: &Vec<u8>, pos: usize) -> (r: i16)
    requires
        pos + 2 <= bytes.len(),
    ensures
        r == le16_val(bytes@[pos as int], bytes@[pos as int + 1]) as i16,
{
    read_u16(bytes, pos) as i16
}

/// Reads the four little-endian bytes at `pos` as a 32-bit value.
pub fn read_u32(bytes: &Vec<u8>, pos: usize) -> (r: u32)
    requires
        pos + 4 <= bytes.len(),
    ensures
        r == le32_val(
            bytes@[pos as int],
            bytes@[pos as int + 1],
            bytes@[pos as int + 2],
            bytes@[pos as int + 3],
        ),
{
    let b0 = bytes[pos];
    let b1 = bytes[pos + 1];
    let b2 = bytes[pos + 2];
    let b3 = bytes[pos + 3];
    b0 as u32 + 256 * (b1 as u32) + 65536 * (b2 as u32) + 16777216 * (b3 as u32)
}

/// Reads the byte at `pos` as a boolean.  The wire allows only 0 and
/// 1 here; a decoder must rule the other values out as malformed
/// before reading.
pub fn read_bool(bytes: &Vec<u8>, pos: usize) -> (r: bool)
    requires
        pos < bytes.len(),
        bytes@[pos as int] <= 1,
    ensures
        r == (bytes@[pos as int] == 1),
{
    bytes[pos] == 1
}

/// Copies the `len` bytes starting at `pos` into a fresh buffer.
pub fn read_bytes(bytes: &Vec<u8>, pos: usize, len: usize) -> (r: Vec<u8>)
    requires
        pos + len <= bytes.len(),
    ensures
        r@ == bytes@.subrange(pos as int, pos as int + len as int),
{
    let mut out: Vec<u8> = Vec::new();
    let mut i: usize = 0;
    while i < len
        invariant
            i <= len,
            pos + len <= bytes.len(),
            out@ == bytes@.subrange(pos as int, pos as int + i as int),
        decreases len - i,
    {
        out.push(bytes[pos + i]);
        i = i + 1;
        assert(out@ =~= bytes@.subrange(pos as int, pos as int + i as int));
    }
    out
}

/// The bit position a window attribute occupies in the value mask.
pub open spec fn wv_bit(v: WindowValue) -> nat {
    match v {
        WindowValue::BackgroundPixmap(_) => 0,
        WindowValue::BackgroundPixel(_) => 1,
        WindowValue::BorderPixmap(_) => 2,
        WindowValue::BorderPixel(_) => 3,
        WindowValue::BitGravity(_) => 4,
        WindowValue::WinGravity(_) => 5,
        WindowValue::BackingStore(_) => 6,
        WindowValue::BackingPlanes(_) => 7,
        WindowValue::BackingPixel(_) => 8,
        WindowValue::OverrideRedirect(_) => 9,
        WindowValue::SaveUnder(_) => 10,
        WindowValue::EventMask(_) => 11,
        WindowValue::DoNotPropagateMask(_) => 12,
        WindowValue::Colormap(_) => 13,
        WindowValue::Cursor(_) => 14,
    }
}

/// An attribute's mask is the single bit at its position.
pub proof fn lemma_wv_mask_bit(v: WindowValue)
    ensures
        v.spec_mask() == 1u32 << wv_bit(v),
        wv_bit(v) <= 14,
{
    assert(1u32 << 0nat == 0x1 && 1u32 << 1nat == 0x2 && 1u32 << 2nat == 0x4 && 1u32 << 3nat
        == 0x8 && 1u32 << 4nat == 0x10 && 1u32 << 5nat == 0x20 && 1u32 << 6nat == 0x40 && 1u32
        << 7nat == 0x80 && 1u32 << 8nat == 0x100 && 1u32 << 9nat == 0x200 && 1u32 << 10nat == 0x400
        && 1u32 << 11nat == 0x800 && 1u32 << 12nat == 0x1000 && 1u32 << 13nat == 0x2000 && 1u32
        << 14nat == 0x4000) by (bit_vector);
}

/// The value mask of an attribute list: one bit per present attribute.
pub open spec fn spec_values_mask(vs: Seq<WindowValue>) -> u32
    decreases vs.len(),
{
    if vs.len() == 0 {
        0u32
    } else {
        vs[0].spec_mask() | spec_values_mask(vs.drop_first())
    }
}

/// The wire form of an attribute list: each present attribute as one
/// 32-bit word, in list order.
pub open spec fn spec_values_bytes(vs: Seq<WindowValue>) -> Seq<u8>
    decreases vs.len(),
{
    if vs.len() == 0 {
        Seq::empty()
    } else {
        u32_le(vs[0].spec_value()) + spec_values_bytes(vs.drop_first())
    }
}

/// Whether an attribute list is in strictly ascending mask order, as
/// the wire layout demands.
pub open spec fn values_ascending(vs: Seq<WindowValue>) -> bool {
    forall|i: int, j: int|
        0 <= i < j < vs.len() ==> (#[trigger] vs[i]).spec_mask() < (#[trigger] vs[j]).spec_mask()
}

/// Whether some attribute of the list sits at the given bit position.
pub open spec fn seq_has_bit(vs: Seq<WindowValue>, b: nat) -> bool
    decreases vs.len(),
{
    if vs.len() == 0 {
        false
    } else {
        wv_bit(vs[0]) == b || seq_has_bit(vs.drop_first(), b)
    }
}

/// Single bits at distinct positions order the same way as the
/// positions themselves.
proof fn lemma_shift_lt(a: nat, b: nat)
    requires
        a < 32,
        b < 32,
    ensures
        ((1u32 << a) < (1u32 << b)) == (a < b),
{
    let au = a as u32;
    let bu = b as u32;
    assert(au < 32 && bu < 32 ==> (((1u32 << au) < (1u32 << bu)) == (au < bu))) by (bit_vector);
    assert(1u32 << au == 1u32 << a);
    assert(1u32 << bu == 1u32 << b);
}

/// The value mask has a bit set exactly where the list has an
/// attribute.
pub proof fn lemma_values_mask_bit(vs: Seq<WindowValue>, b: nat)
    requires
        b < 32,
    ensures
        (spec_values_mask(vs) & (1u32 << b) != 0) == seq_has_bit(vs, b),
    decreases vs.len(),
{
    if vs.len() == 0 {
        assert(0u32 & (1u32 << (b as u32)) == 0) by (bit_vector);
        assert(1u32 << (b as u32) == 1u32 << b);
    } else {
        lemma_values_mask_bit(vs.drop_first(), b);
        lemma_wv_mask_bit(vs[0]);
        let a = wv_bit(vs[0]);
        let au = a as u32;
        let bu = b as u32;
        let r = spec_values_mask(vs.drop_first());
        assert(1u32 << au == 1u32 << a);
        assert(1u32 << bu == 1u32 << b);
        if a == b {
            assert(bu < 32 ==> ((1u32 << bu) | r) & (1u32 << bu) != 0) by (bit_vector);
        } else {
            assert(au < 32 && bu < 32 && au != bu ==> ((((1u32 << au) | r) & (1u32 << bu) != 0)
                == (r & (1u32 << bu) != 0))) by (bit_vector);
        }
    }
}

/// Decodes the gravity of a window's bits from its wire constant.
pub open spec fn spec_bit_gravity_of(w: u32) -> Option<BitGravity> {
    if w == 0 {
        Some(BitGravity::Forget)
    } else if w == 1 {
        Some(BitGravity::Static)
    } else if w == 2 {
        Some(BitGravity::NorthWest)
    } else if w == 3 {
        Some(BitGravity::North)
    } else if w == 4 {
        Some(BitGravity::NorthEast)
    } else if w == 5 {
        Some(BitGravity::West)
    } else if w == 6 {
        Some(BitGravity::Center)
    } else if w == 7 {
        Some(BitGravity::East)
    } else if w == 8 {
        Some(BitGravity::SouthWest)
    } else if w == 9 {
        Some(BitGravity::South)
    } else if w == 10 {
        Some(BitGravity::SouthEast)
    } else {
        None
    }
}

/// Decodes a window gravity from its wire constant.
pub open spec fn spec_win_gravity_of(w: u32) -> Option<WindowGravity> {
    if w == 0 {
        Some(WindowGravity::Unmap)
    } else if w == 1 {
        Some(WindowGravity::Static)
    } else if w == 2 {
        Some(WindowGravity::NorthWest)
    } else if w == 3 {
        Some(WindowGravity::North)
    } else if w == 4 {
        Some(WindowGravity::NorthEast)
    } else if w == 5 {
        Some(WindowGravity::West)
    } else if w == 6 {
        Some(WindowGravity::Center)
    } else if w == 7 {
        Some(WindowGravity::East)
    } else if w == 8 {
        Some(WindowGravity::SouthWest)
    } else if w == 9 {
        Some(WindowGravity::South)
    } else if w == 10 {
        Some(WindowGravity::SouthEast)
    } else {
        None
    }
}

/// Decodes a backing-store policy from its wire constant.
pub open spec fn spec_backing_store_of(w: u32) -> Option<WindowValueBackingStore> {
    if w == 0 {
        Some(WindowValueBackingStore::NotUseful)
    } else if w == 1 {
        Some(WindowValueBackingStore::WhenMapped)
    } else if w == 2 {
        Some(WindowValueBackingStore::Always)
    } else {
        None
    }
}

/// Decodes an input class from its wire constant.
pub open spec fn spec_input_type_of(w: u32) -> Option<WindowInputType> {
    if w == 0 {
        Some(WindowInputType::CopyFromParent)
    } else if w == 1 {
        Some(WindowInputType::InputOutput)
    } else if w == 2 {
        Some(WindowInputType::InputOnly)
    } else {
        None
    }
}

/// Decodes the attribute at a bit position from its 32-bit word.
pub open spec fn spec_decode_value(bit: nat, word: u32) -> Option<WindowValue> {
    if bit == 0 {
        Some(WindowValue::BackgroundPixmap(word))
    } else if bit == 1 {
        Some(WindowValue::BackgroundPixel(word))
    } else if bit == 2 {
        Some(WindowValue::BorderPixmap(word))
    } else if bit == 3 {
        Some(WindowValue::BorderPixel(word))
    } else if bit == 4 {
        match spec_bit_gravity_of(word) {
            Some(g) => Some(WindowValue::BitGravity(g)),
            None => None,
        }
    } else if bit == 5 {
        match spec_win_gravity_of(word) {
            Some(g) => Some(WindowValue::WinGravity(g)),
            None => None,
        }
    } else if bit == 6 {
        match spec_backing_store_of(word) {
            Some(b) => Some(WindowValue::BackingStore(b)),
            None => None,
        }
    } else if bit == 7 {
        Some(WindowValue::BackingPlanes(word))
    } else if bit == 8 {
        Some(WindowValue::BackingPixel(word))
    } else if bit == 9 {
        Some(WindowValue::OverrideRedirect(word != 0))
    } else if bit == 10 {
        Some(WindowValue::SaveUnder(word != 0))
    } else if bit == 11 {
        Some(WindowValue::EventMask(word))
    } else if bit == 12 {
        Some(WindowValue::DoNotPropagateMask(word))
    } else if bit == 13 {
        Some(WindowValue::Colormap(word))
    } else if bit == 14 {
        Some(WindowValue::Cursor(word))
    } else {
        None
    }
}

/// Decoding an attribute's own bit and wire word gives the attribute
/// back.
pub proof fn lemma_decode_value_inverse(v: WindowValue)
    ensures
        spec_decode_value(wv_bit(v), v.spec_value()) == Some(v),
{
}

/// Decodes an attribute list from the value mask and the words that
/// follow it, scanning bit positions upward from `bit`.  Fails when a
/// word is missing, malformed, or left over.
pub open spec fn spec_decode_values(mask: u32, data: Seq<u8>, bit: nat) -> Option<
    Seq<WindowValue>,
>
    decreases 15int - bit,
{
    if bit >= 15 {
        if data.len() == 0 {
            Some(Seq::empty())
        } else {
            None
        }
    } else if mask & (1u32 << bit) != 0 {
        if data.len() < 4 {
            None
        } else {
            let word = le32_val(data[0], data[1], data[2], data[3]);
            match spec_decode_value(bit, word) {
                None => None,
                Some(v) => match spec_decode_values(mask, data.skip(4), bit + 1) {
                    None => None,
                    Some(rest) => Some(seq![v] + rest),
                },
            }
        }
    } else {
        spec_decode_values(mask, data, bit + 1)
    }
}

/// A list whose attributes all sit at or above a bit carries that bit
/// exactly when its first attribute does.
proof fn lemma_has_bit_first(vs: Seq<WindowValue>, b: nat)
    requires
        forall|i: int| 0 <= i < vs.len() ==> wv_bit(#[trigger] vs[i]) >= b,
        forall|i: int, j: int|
            0 <= i < j < vs.len() ==> wv_bit(#[trigger] vs[i]) < wv_bit(#[trigger] vs[j]),
    ensures
        seq_has_bit(vs, b) == (vs.len() > 0 && wv_bit(vs[0]) == b),
    decreases vs.len(),
{
    if vs.len() > 0 && wv_bit(vs[0]) != b {
        let t = vs.drop_first();
        assert(forall|i: int| 0 <= i < t.len() ==> wv_bit(#[trigger] t[i]) > b);
        lemma_all_above_no_bit(t, b);
    }
}

/// A list whose attributes all sit strictly above a bit does not carry
/// it.
proof fn lemma_all_above_no_bit(vs: Seq<WindowValue>, b: nat)
    requires
        forall|i: int| 0 <= i < vs.len() ==> wv_bit(#[trigger] vs[i]) > b,
    ensures
        !seq_has_bit(vs, b),
    decreases vs.len(),
{
    if vs.len() > 0 {
        let t = vs.drop_first();
        assert(forall|i: int| 0 <= i < t.len() ==> wv_bit(#[trigger] t[i]) > b);
        lemma_all_above_no_bit(t, b);
    }
}

/// Decoding the encoded words of an ascending attribute list against a
/// mask that carries exactly the list's bits recovers the list.
proof fn lemma_decode_values_round_trip(mask: u32, vs: Seq<WindowValue>, b: nat)
    requires
        b <= 15,
        forall|i: int| 0 <= i < vs.len() ==> wv_bit(#[trigger] vs[i]) >= b,
        forall|i: int, j: int|
            0 <= i < j < vs.len() ==> wv_bit(#[trigger] vs[i]) < wv_bit(#[trigger] vs[j]),
        forall|b2: nat|
            b <= b2 < 15 ==> ((mask & (1u32 << b2) != 0) == #[trigger] seq_has_bit(vs, b2)),
    ensures
        spec_decode_values(mask, spec_values_bytes(vs), b) == Some(vs),
    decreases 15int - b,
{
    if b >= 15 {
        if vs.len() > 0 {
            lemma_wv_mask_bit(vs[0]);
        }
        assert(vs =~= Seq::<WindowValue>::empty());
    } else {
        lemma_has_bit_first(vs, b);
        if vs.len() > 0 && wv_bit(vs[0]) == b {
            assert(mask & (1u32 << b) != 0);
            let data = spec_values_bytes(vs);
            let head = u32_le(vs[0].spec_value());
            let rest = spec_values_bytes(vs.drop_first());
            assert(data =~= head + rest);
            assert(data.len() >= 4);
            assert(data[0] == head[0] && data[1] == head[1] && data[2] == head[2] && data[3]
                == head[3]);
            lemma_u32_le_round_trip(vs[0].spec_value());
            lemma_decode_value_inverse(vs[0]);
            assert(data.skip(4) =~= rest);
            let t = vs.drop_first();
            assert(forall|i: int| 0 <= i < t.len() ==> wv_bit(#[trigger] t[i]) >= b + 1);
            assert(forall|i: int, j: int|
                0 <= i < j < t.len() ==> wv_bit(#[trigger] t[i]) < wv_bit(#[trigger] t[j]));
            assert forall|b2: nat| b + 1 <= b2 < 15 implies ((mask & (1u32 << b2) != 0)
                == #[trigger] seq_has_bit(t, b2)) by {
                assert(seq_has_bit(vs, b2) == (wv_bit(vs[0]) == b2 || seq_has_bit(t, b2)));
            }
            lemma_decode_values_round_trip(mask, t, b + 1);
            assert(seq![vs[0]] + t =~= vs);
        } else {
            assert(!seq_has_bit(vs, b));
            assert(mask & (1u32 << b) == 0);
            assert(forall|i: int| 0 <= i < vs.len() ==> wv_bit(#[trigger] vs[i]) >= b + 1);
            lemma_decode_values_round_trip(mask, vs, b + 1);
        }
    }
}

/// The wire form of a create-window request: opcode, depth, request
/// length in 4-byte units, the fixed fields, the value mask, and the
/// present attribute words in ascending bit order.
pub open spec fn spec_create_window_bytes(w: Window) -> Seq<u8> {
    seq![1u8, w.depth] + u16_le((8 + w.values@.len()) as u16) + u32_le(w.wid) + u32_le(w.parent)
        + u16_le(w.x as u16) + u16_le(w.y as u16) + u16_le(w.width) + u16_le(w.height) + u16_le(
        w.border_width,
    ) + u16_le(w.class.spec_val() as u16) + u32_le(w.visual_id) + u32_le(
        spec_values_mask(w.values@),
    ) + spec_values_bytes(w.values@)
}

/// What a create-window request denotes: the window's fields with its
/// attribute list as a sequence.
#[verifier::ext_equal]
pub struct WindowImage {
    pub depth: u8,
    pub wid: u32,
    pub parent: u32,
    pub x: i16,
    pub y: i16,
    pub width: u16,
    pub height: u16,
    pub border_width: u16,
    pub class: WindowInputType,
    pub visual_id: u32,
    pub values: Seq<WindowValue>,
}

/// The image of a window record.
pub open spec fn window_image(w: Window) -> WindowImage {
    WindowImage {
        depth: w.depth,
        wid: w.wid,
        parent: w.parent,
        x: w.x,
        y: w.y,
        width: w.width,
        height: w.height,
        border_width: w.border_width,
        class: w.class,
        visual_id: w.visual_id,
        values: w.values@,
    }
}

/// Decodes a create-window request, recovering the fields, the value
/// mask and the attribute list; fails on a malformed request.
pub open spec fn spec_decode_create_window(bytes: Seq<u8>) -> Option<WindowImage> {
    if bytes.len() < 32 {
        None
    } else if bytes[0] != 1 {
        None
    } else {
        let len_field = le16_val(bytes[2], bytes[3]);
        let class_word = le16_val(bytes[22], bytes[23]);
        let mask = le32_val(bytes[28], bytes[29], bytes[30], bytes[31]);
        match spec_input_type_of(class_word as u32) {
            None => None,
            Some(class) => match spec_decode_values(mask, bytes.skip(32), 0) {
                None => None,
                Some(values) => {
                    if len_field == 8 + values.len() {
                        Some(
                            WindowImage {
                                depth: bytes[1],
                                wid: le32_val(bytes[4], bytes[5], bytes[6], bytes[7]),
                                parent: le32_val(bytes[8], bytes[9], bytes[10], bytes[11]),
                                x: le16_val(bytes[12], bytes[13]) as i16,
                                y: le16_val(bytes[14], bytes[15]) as i16,
                                width: le16_val(bytes[16], bytes[17]),
                                height: le16_val(bytes[18], bytes[19]),
                                border_width: le16_val(bytes[20], bytes[21]),
                                class,
                                visual_id: le32_val(bytes[24], bytes[25], bytes[26], bytes[27]),
                                values,
                            },
                        )
                    } else {
                        None
                    }
                },
            },
        }
    }
}

/// An ascending attribute list holds at most one attribute per bit, so
/// at most fifteen in all.
pub proof fn lemma_ascending_len(vs: Seq<WindowValue>)
    requires
        values_ascending(vs),
    ensures
        vs.len() <= 15,
        forall|i: int, j: int|
            0 <= i < j < vs.len() ==> wv_bit(#[trigger] vs[i]) < wv_bit(#[trigger] vs[j]),
        forall|i: int| 0 <= i < vs.len() ==> i <= wv_bit(#[trigger] vs[i]) <= 14,
{
    assert forall|i: int, j: int| 0 <= i < j < vs.len() implies wv_bit(#[trigger] vs[i]) < wv_bit(
        #[trigger] vs[j],
    ) by {
        lemma_wv_mask_bit(vs[i]);
        lemma_wv_mask_bit(vs[j]);
        lemma_shift_lt(wv_bit(vs[i]), wv_bit(vs[j]));
    }
    assert forall|i: int| 0 <= i < vs.len() implies i <= wv_bit(#[trigger] vs[i]) <= 14 by {
        lemma_wv_mask_bit(vs[i]);
        lemma_bit_index_lower(vs, i);
    }
    if vs.len() > 15 {
        assert(wv_bit(vs[15]) >= 15);
        lemma_wv_mask_bit(vs[15]);
    }
}

/// In a bit-ascending list the attribute at an index sits at that bit
/// position or above.
proof fn lemma_bit_index_lower(vs: Seq<WindowValue>, i: int)
    requires
        0 <= i < vs.len(),
        forall|k: int, j: int|
            0 <= k < j < vs.len() ==> (#[trigger] vs[k]).spec_mask() < (
            #[trigger] vs[j]).spec_mask(),
    ensures
        wv_bit(vs[i]) >= i,
    decreases i,
{
    if i > 0 {
        lemma_bit_index_lower(vs, i - 1);
        lemma_wv_mask_bit(vs[i - 1]);
        lemma_wv_mask_bit(vs[i]);
        lemma_shift_lt(wv_bit(vs[i - 1]), wv_bit(vs[i]));
    }
}

/// Encoding a create-window request with an ascending attribute list
/// and decoding the same bytes recovers the identical value mask and
/// field values.
pub proof fn lemma_create_window_round_trip(w: Window)
    requires
        values_ascending(w.values@),
    ensures
        spec_decode_create_window(spec_create_window_bytes(w)) == Some(window_image(w)),
{
    let vs = w.values@;
    let bytes = spec_create_window_bytes(w);
    lemma_ascending_len(vs);
    assert(bytes.len() == 32 + spec_values_bytes_len(vs)) by {
        lemma_values_bytes_len(vs);
    }
    lemma_values_bytes_len(vs);
    assert(bytes[0] == 1);
    assert(bytes[1] == w.depth);
    lemma_u16_le_round_trip((8 + vs.len()) as u16);
    lemma_u32_le_round_trip(w.wid);
    lemma_u32_le_round_trip(w.parent);
    lemma_u16_le_round_trip(w.x as u16);
    lemma_u16_le_round_trip(w.y as u16);
    lemma_u16_le_round_trip(w.width);
    lemma_u16_le_round_trip(w.height);
    lemma_u16_le_round_trip(w.border_width);
    lemma_u16_le_round_trip(w.class.spec_val() as u16);
    lemma_u32_le_round_trip(w.visual_id);
    lemma_u32_le_round_trip(spec_values_mask(vs));
    assert(le16_val(bytes[2], bytes[3]) == (8 + vs.len()) as u16);
    assert(le32_val(bytes[4], bytes[5], bytes[6], bytes[7]) == w.wid);
    assert(le32_val(bytes[8], bytes[9], bytes[10], bytes[11]) == w.parent);
    assert(le16_val(bytes[12], bytes[13]) == w.x as u16);
    assert(le16_val(bytes[14], bytes[15]) == w.y as u16);
    assert(le16_val(bytes[16], bytes[17]) == w.width);
    assert(le16_val(bytes[18], bytes[19]) == w.height);
    assert(le16_val(bytes[20], bytes[21]) == w.border_width);
    assert(le16_val(bytes[22], bytes[23]) == w.class.spec_val() as u16);
    assert(le32_val(bytes[24], bytes[25], bytes[26], bytes[27]) == w.visual_id);
    assert(le32_val(bytes[28], bytes[29], bytes[30], bytes[31]) == spec_values_mask(vs));
    assert(spec_input_type_of(w.class.spec_val()) == Some(w.class));
    assert(bytes.skip(32) =~= spec_values_bytes(vs));
    assert forall|b2: nat| 0 <= b2 < 15 implies ((spec_values_mask(vs) & (1u32 << b2) != 0)
        == #[trigger] seq_has_bit(vs, b2)) by {
        lemma_values_mask_bit(vs, b2);
    }
    lemma_decode_values_round_trip(spec_values_mask(vs), vs, 0);
    lemma_i16_u16_round_trip(w.x);
    lemma_i16_u16_round_trip(w.y);
    assert((w.class.spec_val() as u16) as u32 == w.class.spec_val());
    assert((8 + vs.len()) as u16 == 8 + vs.len());
    assert(spec_decode_create_window(bytes) =~= Some(window_image(w)));
}

/// A signed 16-bit value survives the trip through its unsigned wire
/// form.
pub proof fn lemma_i16_u16_round_trip(v: i16)
    ensures
        (v as u16) as i16 == v,
{
    assert((v as u16) as i16 == v) by (bit_vector);
}

/// The byte length of an encoded attribute list: four per attribute.
pub open spec fn spec_values_bytes_len(vs: Seq<WindowValue>) -> int {
    4 * vs.len() as int
}

/// The encoded attribute list is four bytes per attribute.
pub proof fn lemma_values_bytes_len(vs: Seq<WindowValue>)
    ensures
        spec_values_bytes(vs).len() == 4 * vs.len(),
    decreases vs.len(),
{
    if vs.len() > 0 {
        lemma_values_bytes_len(vs.drop_first());
    }
}

/// Computes the value mask of the attributes from `i` onward.
fn values_mask_from(vs: &Vec<WindowValue>, i: usize) -> (r: u32)
    requires
        i <= vs.len(),
    ensures
        r == spec_values_mask(vs@.skip(i as int)),
    decreases vs.len() - i,
{
    if i == vs.len() {
        assert(vs@.skip(i as int) =~= Seq::<WindowValue>::empty());
        0
    } else {
        let rest = values_mask_from(vs, i + 1);
        proof {
            assert(vs@.skip(i as int)[0] == vs@[i as int]);
            assert(vs@.skip(i as int).drop_first() =~= vs@.skip(i as int + 1));
        }
        vs[i].get_mask() | rest
    }
}

/// Computes the value mask of an attribute list.
pub fn window_values_mask(vs: &Vec<WindowValue>) -> (r: u32)
    ensures
        r == spec_values_mask(vs@),
{
    let r = values_mask_from(vs, 0);
    proof {
        assert(vs@.skip(0) =~= vs@);
    }
    r
}

/// Reports whether an attribute list is in strictly ascending mask
/// order, as the encoders require.
pub fn window_values_are_ascending(vs: &Vec<WindowValue>) -> (r: bool)
    ensures
        r == values_ascending(vs@),
{
    let n = vs.len();
    if n == 0 {
        return true;
    }
    let mut i: usize = 1;
    while i < n
        invariant
            1 <= i <= n,
            n == vs.len(),
            forall|k: int, j: int|
                0 <= k < j < i ==> (#[trigger] vs@[k]).spec_mask() < (#[trigger] vs@[j]).spec_mask(),
            forall|k: int| 0 <= k < i - 1 ==> (#[trigger] vs@[k]).spec_mask() < vs@[i - 1].spec_mask(),
        decreases n - i,
    {
        if vs[i - 1].get_mask() >= vs[i].get_mask() {
            return false;
        }
        i = i + 1;
    }
    true
}

/// Appends the wire words of the attributes from `i` onward.
fn write_values_from(buf: &mut Vec<u8>, vs: &Vec<WindowValue>, i: usize)
    requires
        i <= vs.len(),
    ensures
        final(buf)@ == old(buf)@ + spec_values_bytes(vs@.skip(i as int)),
    decreases vs.len() - i,
{
    if i == vs.len() {
        proof {
            assert(vs@.skip(i as int) =~= Seq::<WindowValue>::empty());
            assert(buf@ =~= buf@ + spec_values_bytes(vs@.skip(i as int)));
        }
    } else {
        write_u32(buf, vs[i].value_word());
        write_values_from(buf, vs, i + 1);
        proof {
            assert(vs@.skip(i as int)[0] == vs@[i as int]);
            assert(vs@.skip(i as int).drop_first() =~= vs@.skip(i as int + 1));
            assert(buf@ =~= old(buf)@ + spec_values_bytes(vs@.skip(i as int)));
        }
    }
}

/// Encodes a create-window request onto the buffer: opcode, fixed
/// fields, the value mask, then only the present attributes in
/// ascending bit order.
pub fn encode_create_window(window: &Window, buf: &mut Vec<u8>)
    requires
        values_ascending(window.values@),
    ensures
        final(buf)@ == old(buf)@ + spec_create_window_bytes(*window),
{
    proof {
        lemma_ascending_len(window.values@);
    }
    write_u8(buf, 1);
    write_u8(buf, window.depth);
    write_u16(buf, 8 + window.values.len() as u16);
    write_u32(buf, window.wid);
    write_u32(buf, window.parent);
    write_i16(buf, window.x);
    write_i16(buf, window.y);
    write_u16(buf, window.width);
    write_u16(buf, window.height);
    write_u16(buf, window.border_width);
    write_u16(buf, window.class.val() as u16);
    write_u32(buf, window.visual_id);
    write_u32(buf, window_values_mask(&window.values));
    write_values_from(buf, &window.values, 0);
    proof {
        assert(window.values@.skip(0) =~= window.values@);
        assert(buf@ =~= old(buf)@ + spec_create_window_bytes(*window));
    }
}

/// Appends the wire words of an attribute list, in list order.
pub fn write_window_values(buf: &mut Vec<u8>, vs: &Vec<WindowValue>)
    ensures
        final(buf)@ == old(buf)@ + spec_values_bytes(vs@),
{
    write_values_from(buf, vs, 0);
    proof {
        assert(vs@.skip(0) =~= vs@);
    }
}

/// Decodes the attribute list of a create-window request, scanning bit
/// positions upward from `bit` at offset `pos`.
fn decode_values_rec(bytes: &Vec<u8>, pos: usize, mask: u32, bit: u32) -> (r: Option<
    Vec<WindowValue>,
>)
    requires
        pos <= bytes.len(),
        bit <= 15,
    ensures
        (match r {
            Some(vs) => spec_decode_values(mask, bytes@.skip(pos as int), bit as nat) == Some(vs@),
            None => spec_decode_values(mask, bytes@.skip(pos as int), bit as nat) is None,
        }),
    decreases 15 - bit,
{
    let ghost data = bytes@.skip(pos as int);
    if bit >= 15 {
        if pos == bytes.len() {
            proof {
                assert(data =~= Seq::<u8>::empty());
            }
            Some(Vec::new())
        } else {
            None
        }
    } else if mask & (1u32 << bit) != 0 {
        if bytes.len() - pos < 4 {
            None
        } else {
            let word = read_u32(bytes, pos);
            proof {
                assert(data[0] == bytes@[pos as int]);
                assert(data[1] == bytes@[pos as int + 1]);
                assert(data[2] == bytes@[pos as int + 2]);
                assert(data[3] == bytes@[pos as int + 3]);
            }
            let v = decode_value_word(bit, word);
            match v {
                None => None,
                Some(v) => {
                    let rest = decode_values_rec(bytes, pos + 4, mask, bit + 1);
                    proof {
                        assert(bytes@.skip(pos as int + 4) =~= data.skip(4));
                    }
                    match rest {
                        None => None,
                        Some(mut vs) => {
                            vs.insert(0, v);
                            proof {
                                assert(vs@ =~= seq![v] + vs@.drop_first());
                            }
                            Some(vs)
                        },
                    }
                },
            }
        }
    } else {
        decode_values_rec(bytes, pos, mask, bit + 1)
    }
}

/// Decodes one attribute word at a bit position.
fn decode_value_word(bit: u32, word: u32) -> (r: Option<WindowValue>)
    ensures
        r == spec_decode_value(bit as nat, word),
{
    if bit == 0 {
        Some(WindowValue::BackgroundPixmap(word))
    } else if bit == 1 {
        Some(WindowValue::BackgroundPixel(word))
    } else if bit == 2 {
        Some(WindowValue::BorderPixmap(word))
    } else if bit == 3 {
        Some(WindowValue::BorderPixel(word))
    } else if bit == 4 {
        match decode_bit_gravity(word) {
            Some(g) => Some(WindowValue::BitGravity(g)),
            None => None,
        }
    } else if bit == 5 {
        match decode_win_gravity(word) {
            Some(g) => Some(WindowValue::WinGravity(g)),
            None => None,
        }
    } else if bit == 6 {
        if word == 0 {
            Some(WindowValue::BackingStore(WindowValueBackingStore::NotUseful))
        } else if word == 1 {
            Some(WindowValue::BackingStore(WindowValueBackingStore::WhenMapped))
        } else if word == 2 {
            Some(WindowValue::BackingStore(WindowValueBackingStore::Always))
        } else {
            None
        }
    } else if bit == 7 {
        Some(WindowValue::BackingPlanes(word))
    } else if bit == 8 {
        Some(WindowValue::BackingPixel(word))
    } else if bit == 9 {
        Some(WindowValue::OverrideRedirect(word != 0))
    } else if bit == 10 {
        Some(WindowValue::SaveUnder(word != 0))
    } else if bit == 11 {
        Some(WindowValue::EventMask(word))
    } else if bit == 12 {
        Some(WindowValue::DoNotPropagateMask(word))
    } else if bit == 13 {
        Some(WindowValue::Colormap(word))
    } else if bit == 14 {
        Some(WindowValue::Cursor(word))
    } else {
        None
    }
}

/// Decodes a gravity constant for a window's bits.
fn decode_bit_gravity(word: u32) -> (r: Option<BitGravity>)
    ensures
        r == spec_bit_gravity_of(word),
{
    if word == 0 {
        Some(BitGravity::Forget)
    } else if word == 1 {
        Some(BitGravity::Static)
    } else if word == 2 {
        Some(BitGravity::NorthWest)
    } else if word == 3 {
        Some(BitGravity::North)
    } else if word == 4 {
        Some(BitGravity::NorthEast)
    } else if word == 5 {
        Some(BitGravity::West)
    } else if word == 6 {
        Some(BitGravity::Center)
    } else if word == 7 {
        Some(BitGravity::East)
    } else if word == 8 {
        Some(BitGravity::SouthWest)
    } else if word == 9 {
        Some(BitGravity::South)
    } else if word == 10 {
        Some(BitGravity::SouthEast)
    } else {
        None
    }
}

/// Decodes a window gravity constant.
fn decode_win_gravity(word: u32) -> (r: Option<WindowGravity>)
    ensures
        r == spec_win_gravity_of(word),
{
    if word == 0 {
        Some(WindowGravity::Unmap)
    } else if word == 1 {
        Some(WindowGravity::Static)
    } else if word == 2 {
        Some(WindowGravity::NorthWest)
    } else if word == 3 {
        Some(WindowGravity::North)
    } else if word == 4 {
        Some(WindowGravity::NorthEast)
    } else if word == 5 {
        Some(WindowGravity::West)
    } else if word == 6 {
        Some(WindowGravity::Center)
    } else if word == 7 {
        Some(WindowGravity::East)
    } else if word == 8 {
        Some(WindowGravity::SouthWest)
    } else if word == 9 {
        Some(WindowGravity::South)
    } else if word == 10 {
        Some(WindowGravity::SouthEast)
    } else {
        None
    }
}

/// Decodes a create-window request back into a window record; fails on
/// a malformed request.
pub fn decode_create_window(bytes: &Vec<u8>) -> (r: Option<Window>)
    ensures
        (match r {
            Some(w) => spec_decode_create_window(bytes@) == Some(window_image(w)),
            None => spec_decode_create_window(bytes@) is None,
        }),
{
    if bytes.len() < 32 {
        return None;
    }
    if read_u8(bytes, 0) != 1 {
        return None;
    }
    let depth = read_u8(bytes, 1);
    let len_field = read_u16(bytes, 2);
    let wid = read_u32(bytes, 4);
    let parent = read_u32(bytes, 8);
    let x = read_i16(bytes, 12);
    let y = read_i16(bytes, 14);
    let width = read_u16(bytes, 16);
    let height = read_u16(bytes, 18);
    let border_width = read_u16(bytes, 20);
    let class_word = read_u16(bytes, 22);
    let visual_id = read_u32(bytes, 24);
    let mask = read_u32(bytes, 28);
    let class = if class_word == 0 {
        WindowInputType::CopyFromParent
    } else if class_word == 1 {
        WindowInputType::InputOutput
    } else if class_word == 2 {
        WindowInputType::InputOnly
    } else {
        return None;
    };
    let values = match decode_values_rec(bytes, 32, mask, 0) {
        None => {
            return None;
        },
        Some(vs) => vs,
    };
    if len_field < 8 || len_field as usize - 8 != values.len() {
        return None;
    }
    let w = Window {
        depth,
        wid,
        parent,
        x,
        y,
        width,
        height,
        border_width,
        class,
        visual_id,
        values,
    };
    proof {
        assert(spec_decode_create_window(bytes@) =~= Some(window_image(w)));
    }
    Some(w)
}

/// The number of pad bytes that brings `n` up to a multiple of four.
pub open spec fn spec_padding_of(n: nat) -> nat {
    ((4 - n % 4) % 4) as nat
}

/// Computes the number of pad bytes that follow an `n`-byte field so
/// that the next field starts on a 4-byte boundary.
pub fn padding_of(n: usize) -> (r: usize)
    ensures
        r == spec_padding_of(n as nat),
        r < 4,
        (n + r) % 4 == 0,
{
    let r = (4 - n % 4) % 4;
    assert((n + (4 - n % 4) % 4) % 4 == 0) by (nonlinear_arith);
    r
}

} // verus!
