//! Encoders for the outbound requests the manager issues.
//!
//! Every encoder appends the exact wire bytes of one request to a
//! buffer; the contract of each pins those bytes byte for byte.

use vstd::prelude::*;

use crate::codec::pad_bytes;
use crate::codec::padding_of;
use crate::codec::spec_padding_of;
use crate::codec::u16_le;
use crate::codec::u32_le;
use crate::codec::write_pad;
use crate::codec::write_u16;
use crate::codec::write_i16;
use crate::codec::write_u32;
use crate::codec::write_u8;
use crate::codec::write_bool;
use crate::models::GraphicsContextValue;
use crate::models::Rectangle;
use crate::models::Value;
use crate::models::WindowValue;

verus! {

/// The value mask of a graphics-context attribute list.
pub open spec fn spec_gc_values_mask(vs: Seq<GraphicsContextValue>) -> u32
    decreases vs.len(),
{
    if vs.len() == 0 {
        0u32
    } else {
        vs[0].spec_mask() | spec_gc_values_mask(vs.drop_first())
    }
}

/// The wire words of a graphics-context attribute list, in list order.
pub open spec fn spec_gc_values_bytes(vs: Seq<GraphicsContextValue>) -> Seq<u8>
    decreases vs.len(),
{
    if vs.len() == 0 {
        Seq::empty()
    } else {
        u32_le(vs[0].spec_value()) + spec_gc_values_bytes(vs.drop_first())
    }
}

/// Computes the value mask of the graphics-context attributes from `i`
/// onward.
fn gc_values_mask_from(vs: &Vec<GraphicsContextValue>, i: usize) -> (r: u32)
    requires
        i <= vs.len(),
    ensures
        r == spec_gc_values_mask(vs@.skip(i as int)),
    decreases vs.len() - i,
{
    if i == vs.len() {
        assert(vs@.skip(i as int) =~= Seq::<GraphicsContextValue>::empty());
        0
    } else {
        let rest = gc_values_mask_from(vs, i + 1);
        proof {
            assert(vs@.skip(i as int)[0] == vs@[i as int]);
            assert(vs@.skip(i as int).drop_first() =~= vs@.skip(i as int + 1));
        }
        vs[i].get_mask() | rest
    }
}

/// Appends the wire words of the graphics-context attributes from `i`
/// onward.
fn write_gc_values_from(buf: &mut Vec<u8>, vs: &Vec<GraphicsContextValue>, i: usize)
    requires
        i <= vs.len(),
    ensures
        final(buf)@ == old(buf)@ + spec_gc_values_bytes(vs@.skip(i as int)),
    decreases vs.len() - i,
{
    if i == vs.len() {
        proof {
            assert(vs@.skip(i as int) =~= Seq::<GraphicsContextValue>::empty());
            assert(buf@ =~= buf@ + spec_gc_values_bytes(vs@.skip(i as int)));
        }
    } else {
        write_u32(buf, vs[i].value_word());
        write_gc_values_from(buf, vs, i + 1);
        proof {
            assert(vs@.skip(i as int)[0] == vs@[i as int]);
            assert(vs@.skip(i as int).drop_first() =~= vs@.skip(i as int + 1));
            assert(buf@ =~= old(buf)@ + spec_gc_values_bytes(vs@.skip(i as int)));
        }
    }
}

/// A request that only names one resource: opcode, an unused byte, a
/// length of two units, and the resource.
pub open spec fn spec_resource_request_bytes(opcode: u8, resource: u32) -> Seq<u8> {
    seq![opcode, 0u8] + u16_le(2) + u32_le(resource)
}

/// Appends a one-resource request.
fn write_resource_request(buf: &mut Vec<u8>, opcode: u8, resource: u32)
    ensures
        final(buf)@ == old(buf)@ + spec_resource_request_bytes(opcode, resource),
{
    write_u8(buf, opcode);
    write_u8(buf, 0);
    write_u16(buf, 2);
    write_u32(buf, resource);
    assert(buf@ =~= old(buf)@ + spec_resource_request_bytes(opcode, resource));
}

/// The wire form of a change-window-attributes request.
pub open spec fn spec_change_window_attributes_bytes(wid: u32, vs: Seq<WindowValue>) -> Seq<u8> {
    seq![2u8, 0u8] + u16_le((3 + vs.len()) as u16) + u32_le(wid) + u32_le(
        crate::codec::spec_values_mask(vs),
    ) + crate::codec::spec_values_bytes(vs)
}

/// Encodes a change-window-attributes request: the window, the value
/// mask, and only the present attributes in ascending bit order.
pub fn encode_change_window_attributes(wid: u32, values: &Vec<WindowValue>, buf: &mut Vec<u8>)
    requires
        crate::codec::values_ascending(values@),
    ensures
        final(buf)@ == old(buf)@ + spec_change_window_attributes_bytes(wid, values@),
{
    proof {
        crate::codec::lemma_ascending_len(values@);
    }
    write_u8(buf, 2);
    write_u8(buf, 0);
    write_u16(buf, 3 + values.len() as u16);
    write_u32(buf, wid);
    write_u32(buf, crate::codec::window_values_mask(values));
    crate::codec::write_window_values(buf, values);
    proof {
        assert(buf@ =~= old(buf)@ + spec_change_window_attributes_bytes(wid, values@));
    }
}

/// The wire form of a get-window-attributes request.
pub open spec fn spec_get_window_attributes_bytes(wid: u32) -> Seq<u8> {
    spec_resource_request_bytes(3, wid)
}

/// Encodes a get-window-attributes request.
pub fn encode_get_window_attributes(wid: u32, buf: &mut Vec<u8>)
    ensures
        final(buf)@ == old(buf)@ + spec_get_window_attributes_bytes(wid),
{
    write_resource_request(buf, 3, wid);
}

/// The wire form of a destroy-window request.
pub open spec fn spec_destroy_window_bytes(wid: u32) -> Seq<u8> {
    spec_resource_request_bytes(4, wid)
}

/// Encodes a destroy-window request.
pub fn encode_destroy_window(wid: u32, buf: &mut Vec<u8>)
    ensures
        final(buf)@ == old(buf)@ + spec_destroy_window_bytes(wid),
{
    write_resource_request(buf, 4, wid);
}

/// The wire form of a reparent-window request.
pub open spec fn spec_reparent_window_bytes(window: u32, parent: u32, x: i16, y: i16) -> Seq<u8> {
    seq![7u8, 0u8] + u16_le(4) + u32_le(window) + u32_le(parent) + u16_le(x as u16) + u16_le(
        y as u16,
    )
}

/// Encodes a reparent-window request: the window becomes a child of
/// the parent at the given offset.
pub fn encode_reparent_window(window: u32, parent: u32, x: i16, y: i16, buf: &mut Vec<u8>)
    ensures
        final(buf)@ == old(buf)@ + spec_reparent_window_bytes(window, parent, x, y),
{
    write_u8(buf, 7);
    write_u8(buf, 0);
    write_u16(buf, 4);
    write_u32(buf, window);
    write_u32(buf, parent);
    write_i16(buf, x);
    write_i16(buf, y);
    assert(buf@ =~= old(buf)@ + spec_reparent_window_bytes(window, parent, x, y));
}

/// The wire form of a map-window request.
pub open spec fn spec_map_window_bytes(wid: u32) -> Seq<u8> {
    spec_resource_request_bytes(8, wid)
}

/// Encodes a map-window request.
pub fn encode_map_window(wid: u32, buf: &mut Vec<u8>)
    ensures
        final(buf)@ == old(buf)@ + spec_map_window_bytes(wid),
{
    write_resource_request(buf, 8, wid);
}

/// The wire form of an unmap-window request.
pub open spec fn spec_unmap_window_bytes(wid: u32) -> Seq<u8> {
    spec_resource_request_bytes(10, wid)
}

/// Encodes an unmap-window request.
pub fn encode_unmap_window(wid: u32, buf: &mut Vec<u8>)
    ensures
        final(buf)@ == old(buf)@ + spec_unmap_window_bytes(wid),
{
    write_resource_request(buf, 10, wid);
}

/// The wire form of a configure-window request that sets position and
/// size: the change mask names x, y, width and height.
pub open spec fn spec_configure_window_geometry_bytes(
    wid: u32,
    x: i16,
    y: i16,
    width: u16,
    height: u16,
) -> Seq<u8> {
    seq![12u8, 0u8] + u16_le(7) + u32_le(wid) + u16_le(0xF) + seq![0u8, 0u8] + u32_le(x as u16 as u32)
        + u32_le(y as u16 as u32) + u32_le(width as u32) + u32_le(height as u32)
}

/// Encodes a configure-window request carrying a full geometry: x, y,
/// width and height, each as one value word in mask-bit order.
pub fn encode_configure_window_geometry(
    wid: u32,
    x: i16,
    y: i16,
    width: u16,
    height: u16,
    buf: &mut Vec<u8>,
)
    ensures
        final(buf)@ == old(buf)@ + spec_configure_window_geometry_bytes(wid, x, y, width, height),
{
    write_u8(buf, 12);
    write_u8(buf, 0);
    write_u16(buf, 7);
    write_u32(buf, wid);
    write_u16(buf, 0xF);
    write_pad(buf, 2);
    write_u32(buf, x as u16 as u32);
    write_u32(buf, y as u16 as u32);
    write_u32(buf, width as u32);
    write_u32(buf, height as u32);
    proof {
        assert(pad_bytes(2) =~= seq![0u8, 0u8]);
        assert(buf@ =~= old(buf)@ + spec_configure_window_geometry_bytes(wid, x, y, width, height));
    }
}

/// The wire form of a get-geometry request.
pub open spec fn spec_get_geometry_bytes(drawable: u32) -> Seq<u8> {
    spec_resource_request_bytes(14, drawable)
}

/// Encodes a get-geometry request.
pub fn encode_get_geometry(drawable: u32, buf: &mut Vec<u8>)
    ensures
        final(buf)@ == old(buf)@ + spec_get_geometry_bytes(drawable),
{
    write_resource_request(buf, 14, drawable);
}

/// The wire form of an intern-atom request: the name, padded to a
/// 4-byte boundary.
pub open spec fn spec_intern_atom_bytes(name: Seq<u8>, only_if_exists: bool) -> Seq<u8> {
    seq![
        16u8,
        if only_if_exists {
            1u8
        } else {
            0u8
        },
    ] + u16_le(((8 + name.len() + spec_padding_of(name.len()) ) / 4) as u16) + u16_le(
        name.len() as u16,
    ) + seq![0u8, 0u8] + name + pad_bytes(spec_padding_of(name.len()))
}

/// Encodes an intern-atom request for a property name.
pub fn encode_intern_atom(name: &Vec<u8>, only_if_exists: bool, buf: &mut Vec<u8>)
    requires
        name@.len() <= 0xFFFF,
    ensures
        final(buf)@ == old(buf)@ + spec_intern_atom_bytes(name@, only_if_exists),
{
    let n = name.len();
    let p = padding_of(n);
    write_u8(buf, 16);
    write_bool(buf, only_if_exists);
    write_u16(buf, ((8 + n + p) / 4) as u16);
    write_u16(buf, n as u16);
    write_pad(buf, 2);
    let mut i: usize = 0;
    while i < n
        invariant
            i <= n,
            n == name.len(),
            buf@ == old(buf)@ + seq![
                16u8,
                if only_if_exists {
                    1u8
                } else {
                    0u8
                },
            ] + u16_le(((8 + n + spec_padding_of(n as nat)) / 4) as u16) + u16_le(n as u16) + seq![
                0u8,
                0u8,
            ] + name@.take(i as int),
        decreases n - i,
    {
        let b = name[i];
        buf.push(b);
        i = i + 1;
        proof {
            assert(name@.take(i as int) =~= name@.take(i as int - 1).push(name@[i as int - 1]));
            assert(buf@ =~= old(buf)@ + seq![
                16u8,
                if only_if_exists {
                    1u8
                } else {
                    0u8
                },
            ] + u16_le(((8 + n + spec_padding_of(n as nat)) / 4) as u16) + u16_le(n as u16) + seq![
                0u8,
                0u8,
            ] + name@.take(i as int));
        }
    }
    write_pad(buf, p);
    proof {
        assert(pad_bytes(2) =~= seq![0u8, 0u8]);
        assert(name@.take(n as int) =~= name@);
        assert(buf@ =~= old(buf)@ + spec_intern_atom_bytes(name@, only_if_exists));
    }
}

/// The wire form of a get-property request that reads a property value
/// without deleting it, with any property type accepted.
pub open spec fn spec_get_property_bytes(window: u32, property: u32, long_length: u32) -> Seq<u8> {
    seq![20u8, 0u8] + u16_le(6) + u32_le(window) + u32_le(property) + u32_le(0) + u32_le(0)
        + u32_le(long_length)
}

/// Encodes a get-property request for up to `long_length` 32-bit units
/// of the value.
pub fn encode_get_property(window: u32, property: u32, long_length: u32, buf: &mut Vec<u8>)
    ensures
        final(buf)@ == old(buf)@ + spec_get_property_bytes(window, property, long_length),
{
    write_u8(buf, 20);
    write_u8(buf, 0);
    write_u16(buf, 6);
    write_u32(buf, window);
    write_u32(buf, property);
    write_u32(buf, 0);
    write_u32(buf, 0);
    write_u32(buf, long_length);
    assert(buf@ =~= old(buf)@ + spec_get_property_bytes(window, property, long_length));
}

/// The wire form of a send-event request that delivers an expose event
/// to a window, without propagation and with an empty event mask.
pub open spec fn spec_send_event_expose_bytes(window: u32, width: u16, height: u16) -> Seq<u8> {
    seq![25u8, 0u8] + u16_le(11) + u32_le(window) + u32_le(0) + seq![12u8, 0u8] + u16_le(0)
        + u32_le(window) + u16_le(0) + u16_le(0) + u16_le(width) + u16_le(height) + u16_le(0)
        + pad_bytes(14)
}

/// Encodes a send-event request that asks the server to deliver an
/// expose event covering the window's full area, so that it repaints.
pub fn encode_send_event_expose(window: u32, width: u16, height: u16, buf: &mut Vec<u8>)
    ensures
        final(buf)@ == old(buf)@ + spec_send_event_expose_bytes(window, width, height),
{
    write_u8(buf, 25);
    write_u8(buf, 0);
    write_u16(buf, 11);
    write_u32(buf, window);
    write_u32(buf, 0);
    write_u8(buf, 12);
    write_u8(buf, 0);
    write_u16(buf, 0);
    write_u32(buf, window);
    write_u16(buf, 0);
    write_u16(buf, 0);
    write_u16(buf, width);
    write_u16(buf, height);
    write_u16(buf, 0);
    write_pad(buf, 14);
    proof {
        assert(buf@ =~= old(buf)@ + spec_send_event_expose_bytes(window, width, height));
    }
}

/// The wire form of a create-pixmap request.
pub open spec fn spec_create_pixmap_bytes(
    depth: u8,
    pid: u32,
    drawable: u32,
    width: u16,
    height: u16,
) -> Seq<u8> {
    seq![53u8, depth] + u16_le(4) + u32_le(pid) + u32_le(drawable) + u16_le(width) + u16_le(height)
}

/// Encodes a create-pixmap request.
pub fn encode_create_pixmap(
    depth: u8,
    pid: u32,
    drawable: u32,
    width: u16,
    height: u16,
    buf: &mut Vec<u8>,
)
    ensures
        final(buf)@ == old(buf)@ + spec_create_pixmap_bytes(depth, pid, drawable, width, height),
{
    write_u8(buf, 53);
    write_u8(buf, depth);
    write_u16(buf, 4);
    write_u32(buf, pid);
    write_u32(buf, drawable);
    write_u16(buf, width);
    write_u16(buf, height);
    assert(buf@ =~= old(buf)@ + spec_create_pixmap_bytes(depth, pid, drawable, width, height));
}

/// The wire form of a create-graphics-context request.
pub open spec fn spec_create_gc_bytes(cid: u32, drawable: u32, vs: Seq<GraphicsContextValue>) -> Seq<
    u8,
> {
    seq![55u8, 0u8] + u16_le((4 + vs.len()) as u16) + u32_le(cid) + u32_le(drawable) + u32_le(
        spec_gc_values_mask(vs),
    ) + spec_gc_values_bytes(vs)
}

/// Encodes a create-graphics-context request with its attribute
/// overrides.
pub fn encode_create_gc(
    cid: u32,
    drawable: u32,
    values: &Vec<GraphicsContextValue>,
    buf: &mut Vec<u8>,
)
    requires
        values@.len() <= 23,
    ensures
        final(buf)@ == old(buf)@ + spec_create_gc_bytes(cid, drawable, values@),
{
    write_u8(buf, 55);
    write_u8(buf, 0);
    write_u16(buf, 4 + values.len() as u16);
    write_u32(buf, cid);
    write_u32(buf, drawable);
    write_u32(buf, gc_values_mask_from(values, 0));
    proof {
        assert(values@.skip(0) =~= values@);
    }
    write_gc_values_from(buf, values, 0);
    proof {
        assert(buf@ =~= old(buf)@ + spec_create_gc_bytes(cid, drawable, values@));
    }
}

/// The wire form of a change-graphics-context request.
pub open spec fn spec_change_gc_bytes(cid: u32, vs: Seq<GraphicsContextValue>) -> Seq<u8> {
    seq![56u8, 0u8] + u16_le((3 + vs.len()) as u16) + u32_le(cid) + u32_le(spec_gc_values_mask(vs))
        + spec_gc_values_bytes(vs)
}

/// Encodes a change-graphics-context request with its attribute
/// overrides.
pub fn encode_change_gc(cid: u32, values: &Vec<GraphicsContextValue>, buf: &mut Vec<u8>)
    requires
        values@.len() <= 23,
    ensures
        final(buf)@ == old(buf)@ + spec_change_gc_bytes(cid, values@),
{
    write_u8(buf, 56);
    write_u8(buf, 0);
    write_u16(buf, 3 + values.len() as u16);
    write_u32(buf, cid);
    write_u32(buf, gc_values_mask_from(values, 0));
    proof {
        assert(values@.skip(0) =~= values@);
    }
    write_gc_values_from(buf, values, 0);
    proof {
        assert(buf@ =~= old(buf)@ + spec_change_gc_bytes(cid, values@));
    }
}

/// The wire bytes of one rectangle: position then size.
pub open spec fn spec_rectangle_bytes(r: Rectangle) -> Seq<u8> {
    u16_le(r.x as u16) + u16_le(r.y as u16) + u16_le(r.width) + u16_le(r.height)
}

/// The wire bytes of a rectangle list, in order.
pub open spec fn spec_rectangles_bytes(rs: Seq<Rectangle>) -> Seq<u8>
    decreases rs.len(),
{
    if rs.len() == 0 {
        Seq::empty()
    } else {
        spec_rectangle_bytes(rs[0]) + spec_rectangles_bytes(rs.drop_first())
    }
}

/// Appends the wire bytes of the rectangles from `i` onward.
fn write_rectangles_from(buf: &mut Vec<u8>, rs: &Vec<Rectangle>, i: usize)
    requires
        i <= rs.len(),
    ensures
        final(buf)@ == old(buf)@ + spec_rectangles_bytes(rs@.skip(i as int)),
    decreases rs.len() - i,
{
    if i == rs.len() {
        proof {
            assert(rs@.skip(i as int) =~= Seq::<Rectangle>::empty());
            assert(buf@ =~= buf@ + spec_rectangles_bytes(rs@.skip(i as int)));
        }
    } else {
        let r = rs[i];
        write_i16(buf, r.x);
        write_i16(buf, r.y);
        write_u16(buf, r.width);
        write_u16(buf, r.height);
        write_rectangles_from(buf, rs, i + 1);
        proof {
            assert(rs@.skip(i as int)[0] == rs@[i as int]);
            assert(rs@.skip(i as int).drop_first() =~= rs@.skip(i as int + 1));
            assert(buf@ =~= old(buf)@ + spec_rectangles_bytes(rs@.skip(i as int)));
        }
    }
}

/// The wire form of a fill-rectangles request.
pub open spec fn spec_poly_fill_rectangle_bytes(
    drawable: u32,
    gc: u32,
    rs: Seq<Rectangle>,
) -> Seq<u8> {
    seq![70u8, 0u8] + u16_le((3 + 2 * rs.len()) as u16) + u32_le(drawable) + u32_le(gc)
        + spec_rectangles_bytes(rs)
}

/// Encodes a request that fills each listed rectangle of the drawable
/// with the context's foreground color.
pub fn encode_poly_fill_rectangle(
    drawable: u32,
    gc: u32,
    rects: &Vec<Rectangle>,
    buf: &mut Vec<u8>,
)
    requires
        rects@.len() <= 0x7FF0,
    ensures
        final(buf)@ == old(buf)@ + spec_poly_fill_rectangle_bytes(drawable, gc, rects@),
{
    write_u8(buf, 70);
    write_u8(buf, 0);
    write_u16(buf, (3 + 2 * rects.len()) as u16);
    write_u32(buf, drawable);
    write_u32(buf, gc);
    proof {
        assert(rects@.skip(0) =~= rects@);
    }
    write_rectangles_from(buf, rects, 0);
    proof {
        assert(buf@ =~= old(buf)@ + spec_poly_fill_rectangle_bytes(drawable, gc, rects@));
    }
}

/// The wire form of an outline-rectangles request.
pub open spec fn spec_poly_rectangle_bytes(drawable: u32, gc: u32, rs: Seq<Rectangle>) -> Seq<u8> {
    seq![67u8, 0u8] + u16_le((3 + 2 * rs.len()) as u16) + u32_le(drawable) + u32_le(gc)
        + spec_rectangles_bytes(rs)
}

/// Encodes a request that draws the outline of each listed rectangle
/// of the drawable in the context's foreground color.
pub fn encode_poly_rectangle(drawable: u32, gc: u32, rects: &Vec<Rectangle>, buf: &mut Vec<u8>)
    requires
        rects@.len() <= 0x7FF0,
    ensures
        final(buf)@ == old(buf)@ + spec_poly_rectangle_bytes(drawable, gc, rects@),
{
    write_u8(buf, 67);
    write_u8(buf, 0);
    write_u16(buf, (3 + 2 * rects.len()) as u16);
    write_u32(buf, drawable);
    write_u32(buf, gc);
    proof {
        assert(rects@.skip(0) =~= rects@);
    }
    write_rectangles_from(buf, rects, 0);
    proof {
        assert(buf@ =~= old(buf)@ + spec_poly_rectangle_bytes(drawable, gc, rects@));
    }
}

/// The wire form of an eight-bit image-text request: the string drawn
/// at a baseline position, padded to a 4-byte boundary.
pub open spec fn spec_image_text8_bytes(
    drawable: u32,
    gc: u32,
    x: i16,
    y: i16,
    text: Seq<u8>,
) -> Seq<u8> {
    seq![76u8, text.len() as u8] + u16_le(
        ((16 + text.len() + spec_padding_of(text.len())) / 4) as u16,
    ) + u32_le(drawable) + u32_le(gc) + u16_le(x as u16) + u16_le(y as u16) + text + pad_bytes(
        spec_padding_of(text.len()),
    )
}

/// Encodes a request that draws the text at the given baseline in the
/// drawable.
pub fn encode_image_text8(
    drawable: u32,
    gc: u32,
    x: i16,
    y: i16,
    text: &Vec<u8>,
    buf: &mut Vec<u8>,
)
    requires
        text@.len() <= 255,
    ensures
        final(buf)@ == old(buf)@ + spec_image_text8_bytes(drawable, gc, x, y, text@),
{
    let n = text.len();
    let p = padding_of(n);
    write_u8(buf, 76);
    write_u8(buf, n as u8);
    write_u16(buf, ((16 + n + p) / 4) as u16);
    write_u32(buf, drawable);
    write_u32(buf, gc);
    write_i16(buf, x);
    write_i16(buf, y);
    let ghost head = old(buf)@ + seq![76u8, n as u8] + u16_le(
        ((16 + n + spec_padding_of(n as nat)) / 4) as u16,
    ) + u32_le(drawable) + u32_le(gc) + u16_le(x as u16) + u16_le(y as u16);
    proof {
        assert(buf@ =~= head);
    }
    let mut i: usize = 0;
    while i < n
        invariant
            i <= n,
            n == text.len(),
            buf@ == head + text@.take(i as int),
        decreases n - i,
    {
        let b = text[i];
        buf.push(b);
        i = i + 1;
        proof {
            assert(text@.take(i as int) =~= text@.take(i as int - 1).push(text@[i as int - 1]));
            assert(buf@ =~= head + text@.take(i as int));
        }
    }
    write_pad(buf, p);
    proof {
        assert(text@.take(n as int) =~= text@);
        assert(buf@ =~= old(buf)@ + spec_image_text8_bytes(drawable, gc, x, y, text@));
    }
}

/// The wire form of a kill-client request.
pub open spec fn spec_kill_client_bytes(resource: u32) -> Seq<u8> {
    spec_resource_request_bytes(113, resource)
}

/// Encodes a request that disconnects the client owning the resource.
pub fn encode_kill_client(resource: u32, buf: &mut Vec<u8>)
    ensures
        final(buf)@ == old(buf)@ + spec_kill_client_bytes(resource),
{
    write_resource_request(buf, 113, resource);
}

} // verus!
