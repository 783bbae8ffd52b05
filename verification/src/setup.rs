//! The connection handshake: the fixed 12-byte request and the parser
//! for the variable-length response that yields the connection
//! descriptor.
//!
//! The response parser is total: every malformed prefix yields
//! nothing, and a successful parse pins every field of the descriptor
//! to its place in the byte stream through a specification parser that
//! the executable one provably matches.

use vstd::prelude::*;

use crate::codec::le16_val;
use crate::codec::le32_val;
use crate::codec::pad_bytes;
use crate::codec::read_bool;
use crate::codec::read_bytes;
use crate::codec::read_u16;
use crate::codec::read_u32;
use crate::codec::read_u8;
use crate::codec::spec_padding_of;
use crate::codec::u16_le;
use crate::codec::padding_of;
use crate::codec::write_pad;
use crate::codec::write_u16;
use crate::codec::write_u8;
use crate::models::BitOrder;
use crate::models::ByteOrder;
use crate::models::ConnectInfo;
use crate::models::Depth;
use crate::models::Format;
use crate::models::Screen;
use crate::models::ScreenBackingStores;
use crate::models::Visual;
use crate::models::VisualType;

verus! {

/// The byte announcing little-endian encoding in the handshake.
pub open spec fn spec_connect_order_byte() -> u8 {
    0x6C
}

/// The protocol major version this client speaks.
pub open spec fn spec_connect_major() -> u16 {
    11
}

/// The wire form of the handshake request: byte-order marker, the
/// protocol version, and two zero-length authorization fields.
pub open spec fn spec_connect_request_bytes() -> Seq<u8> {
    seq![spec_connect_order_byte(), 0u8] + u16_le(spec_connect_major()) + u16_le(0) + u16_le(0)
        + u16_le(0) + pad_bytes(2)
}

/// Encodes the handshake request.
pub fn encode_connect_request(buf: &mut Vec<u8>)
    ensures
        final(buf)@ == old(buf)@ + spec_connect_request_bytes(),
{
    write_u8(buf, 0x6C);
    write_u8(buf, 0);
    write_u16(buf, 11);
    write_u16(buf, 0);
    write_u16(buf, 0);
    write_u16(buf, 0);
    write_pad(buf, 2);
    proof {
        assert(buf@ =~= old(buf)@ + spec_connect_request_bytes());
    }
}

/// A parsed depth record, its visuals as a sequence.
#[verifier::ext_equal]
pub struct DepthImage {
    pub depth: u8,
    pub num_visuals: u16,
    pub visuals: Seq<Visual>,
}

/// A parsed screen record, its depths as a sequence.
#[verifier::ext_equal]
pub struct ScreenImage {
    pub root: u32,
    pub default_colormap: u32,
    pub white_pixel: u32,
    pub black_pixel: u32,
    pub current_input_masks: u32,
    pub width_in_pixels: u16,
    pub height_in_pixels: u16,
    pub width_in_millimeters: u16,
    pub height_in_millimeters: u16,
    pub min_installed_maps: u16,
    pub max_installed_maps: u16,
    pub root_visual: u32,
    pub backing_stores: ScreenBackingStores,
    pub save_unders: bool,
    pub root_depth: u8,
    pub num_depths: u8,
    pub depths: Seq<DepthImage>,
}

/// A parsed connection descriptor, its lists as sequences.
#[verifier::ext_equal]
pub struct ConnectInfoImage {
    pub status_code: u8,
    pub protocol_major_version: u16,
    pub protocol_minor_version: u16,
    pub additional_data_len: u16,
    pub release_number: u32,
    pub resource_id_base: u32,
    pub resource_id_mask: u32,
    pub motion_buffer_size: u32,
    pub max_request_length: u16,
    pub num_screens: u8,
    pub num_formats: u8,
    pub image_byte_order: ByteOrder,
    pub bitmap_format_bit_order: BitOrder,
    pub bitmap_format_scanline_unit: u8,
    pub bitmap_format_scanline_pad: u8,
    pub min_keycode: u8,
    pub max_keycode: u8,
    pub vendor: Seq<u8>,
    pub formats: Seq<Format>,
    pub screens: Seq<ScreenImage>,
}

/// The image of a depth record.
pub open spec fn depth_image(d: Depth) -> DepthImage {
    DepthImage { depth: d.depth, num_visuals: d.num_visuals, visuals: d.visuals@ }
}

/// The image of a screen record.
pub open spec fn screen_image(s: Screen) -> ScreenImage {
    ScreenImage {
        root: s.root,
        default_colormap: s.default_colormap,
        white_pixel: s.white_pixel,
        black_pixel: s.black_pixel,
        current_input_masks: s.current_input_masks,
        width_in_pixels: s.width_in_pixels,
        height_in_pixels: s.height_in_pixels,
        width_in_millimeters: s.width_in_millimeters,
        height_in_millimeters: s.height_in_millimeters,
        min_installed_maps: s.min_installed_maps,
        max_installed_maps: s.max_installed_maps,
        root_visual: s.root_visual,
        backing_stores: s.backing_stores,
        save_unders: s.save_unders,
        root_depth: s.root_depth,
        num_depths: s.num_depths,
        depths: Seq::new(s.depths@.len(), |i: int| depth_image(s.depths@[i])),
    }
}

/// The image of a connection descriptor.
pub open spec fn connect_info_image(c: ConnectInfo) -> ConnectInfoImage {
    ConnectInfoImage {
        status_code: c.status_code,
        protocol_major_version: c.protocol_major_version,
        protocol_minor_version: c.protocol_minor_version,
        additional_data_len: c.additional_data_len,
        release_number: c.release_number,
        resource_id_base: c.resource_id_base,
        resource_id_mask: c.resource_id_mask,
        motion_buffer_size: c.motion_buffer_size,
        max_request_length: c.max_request_length,
        num_screens: c.num_screens,
        num_formats: c.num_formats,
        image_byte_order: c.image_byte_order,
        bitmap_format_bit_order: c.bitmap_format_bit_order,
        bitmap_format_scanline_unit: c.bitmap_format_scanline_unit,
        bitmap_format_scanline_pad: c.bitmap_format_scanline_pad,
        min_keycode: c.min_keycode,
        max_keycode: c.max_keycode,
        vendor: c.vendor@,
        formats: c.formats@,
        screens: Seq::new(c.screens@.len(), |i: int| screen_image(c.screens@[i])),
    }
}

/// Parses one 8-byte pixmap format record.
pub open spec fn spec_parse_format(b: Seq<u8>, pos: int) -> Option<(Format, int)> {
    if pos + 8 <= b.len() {
        Some(
            (
                Format { depth: b[pos], bits_per_pixel: b[pos + 1], scanline_pad: b[pos + 2] },
                pos + 8,
            ),
        )
    } else {
        None
    }
}

/// Parses `n` format records.
pub open spec fn spec_parse_formats(b: Seq<u8>, pos: int, n: nat) -> Option<(Seq<Format>, int)>
    decreases n,
{
    if n == 0 {
        Some((Seq::empty(), pos))
    } else {
        match spec_parse_format(b, pos) {
            None => None,
            Some((f, p2)) => match spec_parse_formats(b, p2, (n - 1) as nat) {
                None => None,
                Some((fs, p3)) => Some((seq![f] + fs, p3)),
            },
        }
    }
}

/// Parses one 24-byte visual record; an unknown class byte fails.
pub open spec fn spec_parse_visual(b: Seq<u8>, pos: int) -> Option<(Visual, int)> {
    if pos + 24 <= b.len() {
        let class = b[pos + 4];
        if class <= 5 {
            Some(
                (
                    Visual {
                        id: le32_val(b[pos], b[pos + 1], b[pos + 2], b[pos + 3]),
                        class: if class == 0 {
                            VisualType::StaticGray
                        } else if class == 1 {
                            VisualType::GrayScale
                        } else if class == 2 {
                            VisualType::StaticColor
                        } else if class == 3 {
                            VisualType::PseudoColor
                        } else if class == 4 {
                            VisualType::TrueColor
                        } else {
                            VisualType::DirectColor
                        },
                        bits_per_rgb_value: b[pos + 5],
                        colormap_entries: le16_val(b[pos + 6], b[pos + 7]),
                        red_mask: le32_val(b[pos + 8], b[pos + 9], b[pos + 10], b[pos + 11]),
                        green_mask: le32_val(b[pos + 12], b[pos + 13], b[pos + 14], b[pos + 15]),
                        blue_mask: le32_val(b[pos + 16], b[pos + 17], b[pos + 18], b[pos + 19]),
                    },
                    pos + 24,
                ),
            )
        } else {
            None
        }
    } else {
        None
    }
}

/// Parses `n` visual records.
pub open spec fn spec_parse_visuals(b: Seq<u8>, pos: int, n: nat) -> Option<(Seq<Visual>, int)>
    decreases n,
{
    if n == 0 {
        Some((Seq::empty(), pos))
    } else {
        match spec_parse_visual(b, pos) {
            None => None,
            Some((v, p2)) => match spec_parse_visuals(b, p2, (n - 1) as nat) {
                None => None,
                Some((vs, p3)) => Some((seq![v] + vs, p3)),
            },
        }
    }
}

/// Parses one depth record: an 8-byte header and its visuals.
pub open spec fn spec_parse_depth(b: Seq<u8>, pos: int) -> Option<(DepthImage, int)> {
    if pos + 8 <= b.len() {
        let depth = b[pos];
        let num_visuals = le16_val(b[pos + 2], b[pos + 3]);
        match spec_parse_visuals(b, pos + 8, num_visuals as nat) {
            None => None,
            Some((vs, p2)) => Some((DepthImage { depth, num_visuals, visuals: vs }, p2)),
        }
    } else {
        None
    }
}

/// Parses `n` depth records.
pub open spec fn spec_parse_depths(b: Seq<u8>, pos: int, n: nat) -> Option<(Seq<DepthImage>, int)>
    decreases n,
{
    if n == 0 {
        Some((Seq::empty(), pos))
    } else {
        match spec_parse_depth(b, pos) {
            None => None,
            Some((d, p2)) => match spec_parse_depths(b, p2, (n - 1) as nat) {
                None => None,
                Some((ds, p3)) => Some((seq![d] + ds, p3)),
            },
        }
    }
}

/// Parses one screen record: a 40-byte header and its depths; an
/// unknown backing-stores byte or a malformed boolean fails.
pub open spec fn spec_parse_screen(b: Seq<u8>, pos: int) -> Option<(ScreenImage, int)> {
    if pos + 40 <= b.len() {
        let stores = b[pos + 36];
        if stores <= 2 && b[pos + 37] <= 1 {
            let num_depths = b[pos + 39];
            match spec_parse_depths(b, pos + 40, num_depths as nat) {
                None => None,
                Some((ds, p2)) => Some(
                    (
                        ScreenImage {
                            root: le32_val(b[pos], b[pos + 1], b[pos + 2], b[pos + 3]),
                            default_colormap: le32_val(
                                b[pos + 4],
                                b[pos + 5],
                                b[pos + 6],
                                b[pos + 7],
                            ),
                            white_pixel: le32_val(b[pos + 8], b[pos + 9], b[pos + 10], b[pos + 11]),
                            black_pixel: le32_val(
                                b[pos + 12],
                                b[pos + 13],
                                b[pos + 14],
                                b[pos + 15],
                            ),
                            current_input_masks: le32_val(
                                b[pos + 16],
                                b[pos + 17],
                                b[pos + 18],
                                b[pos + 19],
                            ),
                            width_in_pixels: le16_val(b[pos + 20], b[pos + 21]),
                            height_in_pixels: le16_val(b[pos + 22], b[pos + 23]),
                            width_in_millimeters: le16_val(b[pos + 24], b[pos + 25]),
                            height_in_millimeters: le16_val(b[pos + 26], b[pos + 27]),
                            min_installed_maps: le16_val(b[pos + 28], b[pos + 29]),
                            max_installed_maps: le16_val(b[pos + 30], b[pos + 31]),
                            root_visual: le32_val(
                                b[pos + 32],
                                b[pos + 33],
                                b[pos + 34],
                                b[pos + 35],
                            ),
                            backing_stores: if stores == 0 {
                                ScreenBackingStores::Never
                            } else if stores == 1 {
                                ScreenBackingStores::WhenMapped
                            } else {
                                ScreenBackingStores::Always
                            },
                            save_unders: b[pos + 37] == 1,
                            root_depth: b[pos + 38],
                            num_depths,
                            depths: ds,
                        },
                        p2,
                    ),
                ),
            }
        } else {
            None
        }
    } else {
        None
    }
}

/// Parses `n` screen records.
pub open spec fn spec_parse_screens(b: Seq<u8>, pos: int, n: nat) -> Option<
    (Seq<ScreenImage>, int),
>
    decreases n,
{
    if n == 0 {
        Some((Seq::empty(), pos))
    } else {
        match spec_parse_screen(b, pos) {
            None => None,
            Some((s, p2)) => match spec_parse_screens(b, p2, (n - 1) as nat) {
                None => None,
                Some((ss, p3)) => Some((seq![s] + ss, p3)),
            },
        }
    }
}

/// Parses the whole handshake response into a connection descriptor.
/// Anything but a success status fails, as do unknown order bytes and
/// any truncation.
pub open spec fn spec_parse_connect_setup(b: Seq<u8>) -> Option<ConnectInfoImage> {
    if b.len() < 40 {
        None
    } else if b[0] != 1 {
        None
    } else if b[30] > 1 || b[31] > 1 {
        None
    } else {
        let vendor_len = le16_val(b[24], b[25]);
        let vendor_end = 40 + vendor_len as int;
        if vendor_end + spec_padding_of(vendor_len as nat) <= b.len() {
            let after_vendor = vendor_end + spec_padding_of(vendor_len as nat);
            match spec_parse_formats(b, after_vendor, b[29] as nat) {
                None => None,
                Some((formats, p2)) => match spec_parse_screens(b, p2, b[28] as nat) {
                    None => None,
                    Some((screens, p3)) => Some(
                        ConnectInfoImage {
                            status_code: b[0],
                            protocol_major_version: le16_val(b[2], b[3]),
                            protocol_minor_version: le16_val(b[4], b[5]),
                            additional_data_len: le16_val(b[6], b[7]),
                            release_number: le32_val(b[8], b[9], b[10], b[11]),
                            resource_id_base: le32_val(b[12], b[13], b[14], b[15]),
                            resource_id_mask: le32_val(b[16], b[17], b[18], b[19]),
                            motion_buffer_size: le32_val(b[20], b[21], b[22], b[23]),
                            max_request_length: le16_val(b[26], b[27]),
                            num_screens: b[28],
                            num_formats: b[29],
                            image_byte_order: if b[30] == 0 {
                                ByteOrder::LSBFirst
                            } else {
                                ByteOrder::MSBFirst
                            },
                            bitmap_format_bit_order: if b[31] == 0 {
                                BitOrder::LeastSignificant
                            } else {
                                BitOrder::MostSignificant
                            },
                            bitmap_format_scanline_unit: b[32],
                            bitmap_format_scanline_pad: b[33],
                            min_keycode: b[34],
                            max_keycode: b[35],
                            vendor: b.subrange(40, vendor_end),
                            formats,
                            screens,
                        },
                    ),
                },
            }
        } else {
            None
        }
    }
}

/// Parses one format record.
fn parse_format(bytes: &Vec<u8>, pos: usize) -> (r: Option<(Format, usize)>)
    ensures
        (match r {
            Some((f, p2)) => spec_parse_format(bytes@, pos as int) == Some((f, p2 as int)),
            None => spec_parse_format(bytes@, pos as int) is None,
        }),
{
    if pos > bytes.len() || bytes.len() - pos < 8 {
        return None;
    }
    Some(
        (
            Format {
                depth: read_u8(bytes, pos),
                bits_per_pixel: read_u8(bytes, pos + 1),
                scanline_pad: read_u8(bytes, pos + 2),
            },
            pos + 8,
        ),
    )
}

/// Parses `n` format records.
fn parse_formats(bytes: &Vec<u8>, pos: usize, n: u8) -> (r: Option<(Vec<Format>, usize)>)
    ensures
        (match r {
            Some((fs, p2)) => spec_parse_formats(bytes@, pos as int, n as nat) == Some(
                (fs@, p2 as int),
            ),
            None => spec_parse_formats(bytes@, pos as int, n as nat) is None,
        }),
    decreases n,
{
    if n == 0 {
        Some((Vec::new(), pos))
    } else {
        match parse_format(bytes, pos) {
            None => None,
            Some((f, p2)) => match parse_formats(bytes, p2, n - 1) {
                None => None,
                Some((mut fs, p3)) => {
                    fs.insert(0, f);
                    proof {
                        assert(fs@ =~= seq![f] + fs@.drop_first());
                    }
                    Some((fs, p3))
                },
            },
        }
    }
}

/// Parses one visual record.
fn parse_visual(bytes: &Vec<u8>, pos: usize) -> (r: Option<(Visual, usize)>)
    ensures
        (match r {
            Some((v, p2)) => spec_parse_visual(bytes@, pos as int) == Some((v, p2 as int)),
            None => spec_parse_visual(bytes@, pos as int) is None,
        }),
{
    if pos > bytes.len() || bytes.len() - pos < 24 {
        return None;
    }
    let class_byte = read_u8(bytes, pos + 4);
    let class = if class_byte == 0 {
        VisualType::StaticGray
    } else if class_byte == 1 {
        VisualType::GrayScale
    } else if class_byte == 2 {
        VisualType::StaticColor
    } else if class_byte == 3 {
        VisualType::PseudoColor
    } else if class_byte == 4 {
        VisualType::TrueColor
    } else if class_byte == 5 {
        VisualType::DirectColor
    } else {
        return None;
    };
    Some(
        (
            Visual {
                id: read_u32(bytes, pos),
                class,
                bits_per_rgb_value: read_u8(bytes, pos + 5),
                colormap_entries: read_u16(bytes, pos + 6),
                red_mask: read_u32(bytes, pos + 8),
                green_mask: read_u32(bytes, pos + 12),
                blue_mask: read_u32(bytes, pos + 16),
            },
            pos + 24,
        ),
    )
}

/// Parses `n` visual records.
fn parse_visuals(bytes: &Vec<u8>, pos: usize, n: u16) -> (r: Option<(Vec<Visual>, usize)>)
    ensures
        (match r {
            Some((vs, p2)) => spec_parse_visuals(bytes@, pos as int, n as nat) == Some(
                (vs@, p2 as int),
            ),
            None => spec_parse_visuals(bytes@, pos as int, n as nat) is None,
        }),
    decreases n,
{
    if n == 0 {
        Some((Vec::new(), pos))
    } else {
        match parse_visual(bytes, pos) {
            None => None,
            Some((v, p2)) => match parse_visuals(bytes, p2, n - 1) {
                None => None,
                Some((mut vs, p3)) => {
                    vs.insert(0, v);
                    proof {
                        assert(vs@ =~= seq![v] + vs@.drop_first());
                    }
                    Some((vs, p3))
                },
            },
        }
    }
}

/// Parses one depth record with its visuals.
fn parse_depth(bytes: &Vec<u8>, pos: usize) -> (r: Option<(Depth, usize)>)
    ensures
        (match r {
            Some((d, p2)) => spec_parse_depth(bytes@, pos as int) == Some(
                (depth_image(d), p2 as int),
            ),
            None => spec_parse_depth(bytes@, pos as int) is None,
        }),
{
    if pos > bytes.len() || bytes.len() - pos < 8 {
        return None;
    }
    let depth = read_u8(bytes, pos);
    let num_visuals = read_u16(bytes, pos + 2);
    match parse_visuals(bytes, pos + 8, num_visuals) {
        None => None,
        Some((vs, p2)) => Some((Depth { depth, num_visuals, visuals: vs }, p2)),
    }
}

/// Parses `n` depth records.
fn parse_depths(bytes: &Vec<u8>, pos: usize, n: u8) -> (r: Option<(Vec<Depth>, usize)>)
    ensures
        (match r {
            Some((ds, p2)) => spec_parse_depths(bytes@, pos as int, n as nat) == Some(
                (Seq::new(ds@.len(), |i: int| depth_image(ds@[i])), p2 as int),
            ),
            None => spec_parse_depths(bytes@, pos as int, n as nat) is None,
        }),
    decreases n,
{
    if n == 0 {
        let ds: Vec<Depth> = Vec::new();
        proof {
            assert(Seq::new(ds@.len(), |i: int| depth_image(ds@[i])) =~= Seq::<
                DepthImage,
            >::empty());
        }
        Some((ds, pos))
    } else {
        match parse_depth(bytes, pos) {
            None => None,
            Some((d, p2)) => match parse_depths(bytes, p2, n - 1) {
                None => None,
                Some((mut ds, p3)) => {
                    ds.insert(0, d);
                    proof {
                        let tail = ds@.drop_first();
                        assert(Seq::new(ds@.len(), |i: int| depth_image(ds@[i])) =~= seq![
                            depth_image(d),
                        ] + Seq::new(tail.len(), |i: int| depth_image(tail[i])));
                    }
                    Some((ds, p3))
                },
            },
        }
    }
}

/// Parses one screen record with its depths.
fn parse_screen(bytes: &Vec<u8>, pos: usize) -> (r: Option<(Screen, usize)>)
    ensures
        (match r {
            Some((s, p2)) => spec_parse_screen(bytes@, pos as int) == Some(
                (screen_image(s), p2 as int),
            ),
            None => spec_parse_screen(bytes@, pos as int) is None,
        }),
{
    if pos > bytes.len() || bytes.len() - pos < 40 {
        return None;
    }
    let stores_byte = read_u8(bytes, pos + 36);
    let backing_stores = if stores_byte == 0 {
        ScreenBackingStores::Never
    } else if stores_byte == 1 {
        ScreenBackingStores::WhenMapped
    } else if stores_byte == 2 {
        ScreenBackingStores::Always
    } else {
        return None;
    };
    if read_u8(bytes, pos + 37) > 1 {
        return None;
    }
    let num_depths = read_u8(bytes, pos + 39);
    match parse_depths(bytes, pos + 40, num_depths) {
        None => None,
        Some((ds, p2)) => {
            let s = Screen {
                root: read_u32(bytes, pos),
                default_colormap: read_u32(bytes, pos + 4),
                white_pixel: read_u32(bytes, pos + 8),
                black_pixel: read_u32(bytes, pos + 12),
                current_input_masks: read_u32(bytes, pos + 16),
                width_in_pixels: read_u16(bytes, pos + 20),
                height_in_pixels: read_u16(bytes, pos + 22),
                width_in_millimeters: read_u16(bytes, pos + 24),
                height_in_millimeters: read_u16(bytes, pos + 26),
                min_installed_maps: read_u16(bytes, pos + 28),
                max_installed_maps: read_u16(bytes, pos + 30),
                root_visual: read_u32(bytes, pos + 32),
                backing_stores,
                save_unders: read_bool(bytes, pos + 37),
                root_depth: read_u8(bytes, pos + 38),
                num_depths,
                depths: ds,
            };
            proof {
                assert(screen_image(s) =~= spec_parse_screen(bytes@, pos as int).unwrap().0);
            }
            Some((s, p2))
        },
    }
}

/// Parses `n` screen records.
fn parse_screens(bytes: &Vec<u8>, pos: usize, n: u8) -> (r: Option<(Vec<Screen>, usize)>)
    ensures
        (match r {
            Some((ss, p2)) => spec_parse_screens(bytes@, pos as int, n as nat) == Some(
                (Seq::new(ss@.len(), |i: int| screen_image(ss@[i])), p2 as int),
            ),
            None => spec_parse_screens(bytes@, pos as int, n as nat) is None,
        }),
    decreases n,
{
    if n == 0 {
        let ss: Vec<Screen> = Vec::new();
        proof {
            assert(Seq::new(ss@.len(), |i: int| screen_image(ss@[i])) =~= Seq::<
                ScreenImage,
            >::empty());
        }
        Some((ss, pos))
    } else {
        match parse_screen(bytes, pos) {
            None => None,
            Some((s, p2)) => match parse_screens(bytes, p2, n - 1) {
                None => None,
                Some((mut ss, p3)) => {
                    ss.insert(0, s);
                    proof {
                        let tail = ss@.drop_first();
                        assert(Seq::new(ss@.len(), |i: int| screen_image(ss@[i])) =~= seq![
                            screen_image(s),
                        ] + Seq::new(tail.len(), |i: int| screen_image(tail[i])));
                    }
                    Some((ss, p3))
                },
            },
        }
    }
}

/// Parses the handshake response into the connection descriptor.
/// Returns nothing when the server reported failure or asked for
/// authentication, or when the response is malformed: such a
/// connection cannot proceed.
pub fn parse_connect_setup(bytes: &Vec<u8>) -> (r: Option<ConnectInfo>)
    ensures
        (match r {
            Some(c) => spec_parse_connect_setup(bytes@) == Some(connect_info_image(c)),
            None => spec_parse_connect_setup(bytes@) is None,
        }),
{
    if bytes.len() < 40 {
        return None;
    }
    if read_u8(bytes, 0) != 1 {
        return None;
    }
    let order_byte = read_u8(bytes, 30);
    let bit_order_byte = read_u8(bytes, 31);
    if order_byte > 1 || bit_order_byte > 1 {
        return None;
    }
    let vendor_len = read_u16(bytes, 24);
    let pad = padding_of(vendor_len as usize);
    if bytes.len() - 40 < (vendor_len as usize) {
        return None;
    }
    if bytes.len() - 40 - (vendor_len as usize) < pad {
        return None;
    }
    let vendor = read_bytes(bytes, 40, vendor_len as usize);
    let after_vendor = 40 + vendor_len as usize + pad;
    let num_formats = read_u8(bytes, 29);
    let num_screens = read_u8(bytes, 28);
    let (formats, p2) = match parse_formats(bytes, after_vendor, num_formats) {
        None => {
            return None;
        },
        Some(x) => x,
    };
    let (screens, _p3) = match parse_screens(bytes, p2, num_screens) {
        None => {
            return None;
        },
        Some(x) => x,
    };
    let c = ConnectInfo {
        status_code: read_u8(bytes, 0),
        protocol_major_version: read_u16(bytes, 2),
        protocol_minor_version: read_u16(bytes, 4),
        additional_data_len: read_u16(bytes, 6),
        release_number: read_u32(bytes, 8),
        resource_id_base: read_u32(bytes, 12),
        resource_id_mask: read_u32(bytes, 16),
        motion_buffer_size: read_u32(bytes, 20),
        max_request_length: read_u16(bytes, 26),
        num_screens,
        num_formats,
        image_byte_order: if order_byte == 0 {
            ByteOrder::LSBFirst
        } else {
            ByteOrder::MSBFirst
        },
        bitmap_format_bit_order: if bit_order_byte == 0 {
            BitOrder::LeastSignificant
        } else {
            BitOrder::MostSignificant
        },
        bitmap_format_scanline_unit: read_u8(bytes, 32),
        bitmap_format_scanline_pad: read_u8(bytes, 33),
        min_keycode: read_u8(bytes, 34),
        max_keycode: read_u8(bytes, 35),
        vendor,
        formats,
        screens,
    };
    proof {
        assert(connect_info_image(c) =~= spec_parse_connect_setup(bytes@).unwrap());
    }
    Some(c)
}

} // verus!
