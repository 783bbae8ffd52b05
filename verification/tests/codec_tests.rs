//! Byte-level tests of the writers, the request encoders, and the
//! create-window round trip.

use xwm::codec::decode_create_window;
use xwm::codec::encode_create_window;
use xwm::codec::padding_of;
use xwm::codec::read_u16;
use xwm::codec::read_u32;
use xwm::codec::window_values_are_ascending;
use xwm::codec::write_u16;
use xwm::codec::write_u32;
use xwm::models::BitGravity;
use xwm::models::Value;
use xwm::models::Window;
use xwm::models::WindowInputType;
use xwm::models::WindowValue;
use xwm::requests::encode_intern_atom;
use xwm::requests::encode_kill_client;
use xwm::requests::encode_map_window;
use xwm::setup::encode_connect_request;
use xwm::setup::parse_connect_setup;

fn sample_window() -> Window {
    Window {
        depth: 24,
        wid: 0x0120_0001,
        parent: 0x0000_0042,
        x: -5,
        y: 17,
        width: 800,
        height: 600,
        border_width: 1,
        class: WindowInputType::InputOutput,
        visual_id: 0x21,
        values: vec![
            WindowValue::BackgroundPixel(0x00FF_00FF),
            WindowValue::BitGravity(BitGravity::NorthWest),
            WindowValue::OverrideRedirect(true),
            WindowValue::EventMask(0x0000_8001),
            WindowValue::Colormap(0),
        ],
    }
}

#[test]
fn little_endian_writers_round_trip() {
    let mut buf: Vec<u8> = Vec::new();
    write_u16(&mut buf, 0xBEEF);
    write_u32(&mut buf, 0x0102_03FE);
    assert_eq!(buf, vec![0xEF, 0xBE, 0xFE, 0x03, 0x02, 0x01]);
    assert_eq!(read_u16(&buf, 0), 0xBEEF);
    assert_eq!(read_u32(&buf, 2), 0x0102_03FE);
}

#[test]
fn padding_reaches_four_byte_boundary() {
    assert_eq!(padding_of(0), 0);
    assert_eq!(padding_of(1), 3);
    assert_eq!(padding_of(2), 2);
    assert_eq!(padding_of(3), 1);
    assert_eq!(padding_of(4), 0);
    assert_eq!(padding_of(13), 3);
}

#[test]
fn create_window_round_trip_recovers_fields() {
    let w = sample_window();
    assert!(window_values_are_ascending(&w.values));
    let mut buf: Vec<u8> = Vec::new();
    encode_create_window(&w, &mut buf);
    // opcode, depth, then the request length in 4-byte units.
    assert_eq!(buf[0], 1);
    assert_eq!(buf[1], 24);
    assert_eq!(read_u16(&buf, 2), 8 + 5);
    assert_eq!(buf.len(), 32 + 4 * 5);
    // The value mask carries exactly the five present attribute bits.
    assert_eq!(read_u32(&buf, 28), 0x2 | 0x10 | 0x200 | 0x800 | 0x2000);
    let d = decode_create_window(&buf).expect("well-formed request must decode");
    assert_eq!(d.depth, w.depth);
    assert_eq!(d.wid, w.wid);
    assert_eq!(d.parent, w.parent);
    assert_eq!(d.x, w.x);
    assert_eq!(d.y, w.y);
    assert_eq!(d.width, w.width);
    assert_eq!(d.height, w.height);
    assert_eq!(d.border_width, w.border_width);
    assert_eq!(d.class, w.class);
    assert_eq!(d.visual_id, w.visual_id);
    assert_eq!(d.values, w.values);
}

#[test]
fn create_window_decode_rejects_wrong_opcode() {
    let w = sample_window();
    let mut buf: Vec<u8> = Vec::new();
    encode_create_window(&w, &mut buf);
    buf[0] = 2;
    assert!(decode_create_window(&buf).is_none());
}

#[test]
fn create_window_decode_rejects_truncation() {
    let w = sample_window();
    let mut buf: Vec<u8> = Vec::new();
    encode_create_window(&w, &mut buf);
    buf.truncate(buf.len() - 1);
    assert!(decode_create_window(&buf).is_none());
}

#[test]
fn value_masks_follow_protocol_order() {
    assert_eq!(WindowValue::BackgroundPixmap(0).get_mask(), 0x1);
    assert_eq!(WindowValue::EventMask(0).get_mask(), 0x800);
    assert_eq!(WindowValue::Cursor(0).get_mask(), 0x4000);
    let unsorted = vec![WindowValue::EventMask(0), WindowValue::BackgroundPixel(1)];
    assert!(!window_values_are_ascending(&unsorted));
}

#[test]
fn connect_request_is_twelve_fixed_bytes() {
    let mut buf: Vec<u8> = Vec::new();
    encode_connect_request(&mut buf);
    assert_eq!(buf, vec![0x6C, 0, 11, 0, 0, 0, 0, 0, 0, 0, 0, 0]);
}

#[test]
fn intern_atom_request_pads_the_name() {
    let mut buf: Vec<u8> = Vec::new();
    let name: Vec<u8> = b"_NET_WM_NAME".to_vec();
    encode_intern_atom(&name, false, &mut buf);
    assert_eq!(buf[0], 16);
    assert_eq!(buf[1], 0);
    // 8 header bytes plus a 12-byte name that needs no padding: 5 units.
    assert_eq!(read_u16(&buf, 2), 5);
    assert_eq!(read_u16(&buf, 4), 12);
    assert_eq!(&buf[8..20], b"_NET_WM_NAME");
    assert_eq!(buf.len(), 20);
}

#[test]
fn single_resource_requests_have_fixed_shape() {
    let mut buf: Vec<u8> = Vec::new();
    encode_map_window(0xAABB_CCDD, &mut buf);
    assert_eq!(buf, vec![8, 0, 2, 0, 0xDD, 0xCC, 0xBB, 0xAA]);
    let mut buf2: Vec<u8> = Vec::new();
    encode_kill_client(0x1, &mut buf2);
    assert_eq!(buf2[0], 113);
    assert_eq!(buf2.len(), 8);
}

#[test]
fn connect_setup_parser_reads_the_descriptor() {
    // A minimal success response: fixed header, a 4-byte vendor, one
    // format, one screen with one depth holding one visual.
    let mut b: Vec<u8> = Vec::new();
    b.push(1); // success
    b.push(0);
    b.extend_from_slice(&[11, 0]); // major
    b.extend_from_slice(&[0, 0]); // minor
    b.extend_from_slice(&[0, 0]); // additional length (unchecked)
    b.extend_from_slice(&[1, 0, 0, 0]); // release
    b.extend_from_slice(&[0, 0, 0, 0x04]); // resource id base
    b.extend_from_slice(&[0xFF, 0xFF, 0x1F, 0x00]); // resource id mask
    b.extend_from_slice(&[0, 1, 0, 0]); // motion buffer
    b.extend_from_slice(&[4, 0]); // vendor length
    b.extend_from_slice(&[0xFF, 0xFF]); // max request length
    b.push(1); // one screen
    b.push(1); // one format
    b.push(0); // image byte order
    b.push(0); // bitmap bit order
    b.push(8);
    b.push(32);
    b.push(8); // min keycode
    b.push(255); // max keycode
    b.extend_from_slice(&[0, 0, 0, 0]); // pad
    b.extend_from_slice(b"acme"); // vendor, already 4-aligned
    b.extend_from_slice(&[24, 32, 32, 0, 0, 0, 0, 0]); // format record
    // Screen record: 40 bytes.
    b.extend_from_slice(&[0x01, 0x00, 0x00, 0x00]); // root
    b.extend_from_slice(&[0x02, 0x00, 0x00, 0x00]); // default colormap
    b.extend_from_slice(&[0xFF, 0xFF, 0xFF, 0x00]); // white
    b.extend_from_slice(&[0x00, 0x00, 0x00, 0x00]); // black
    b.extend_from_slice(&[0x00, 0x00, 0x00, 0x00]); // input masks
    b.extend_from_slice(&[0x20, 0x03]); // width 800
    b.extend_from_slice(&[0x58, 0x02]); // height 600
    b.extend_from_slice(&[0x10, 0x01]);
    b.extend_from_slice(&[0xCB, 0x00]);
    b.extend_from_slice(&[1, 0]);
    b.extend_from_slice(&[1, 0]);
    b.extend_from_slice(&[0x21, 0x00, 0x00, 0x00]); // root visual
    b.push(0); // backing stores: never
    b.push(0); // save unders
    b.push(24); // root depth
    b.push(1); // one depth record
    // Depth record: 8 bytes then one visual.
    b.push(24);
    b.push(0);
    b.extend_from_slice(&[1, 0]); // one visual
    b.extend_from_slice(&[0, 0, 0, 0]);
    b.extend_from_slice(&[0x21, 0x00, 0x00, 0x00]); // visual id
    b.push(4); // true color
    b.push(8);
    b.extend_from_slice(&[0, 1]); // colormap entries
    b.extend_from_slice(&[0x00, 0x00, 0xFF, 0x00]); // red
    b.extend_from_slice(&[0x00, 0xFF, 0x00, 0x00]); // green
    b.extend_from_slice(&[0xFF, 0x00, 0x00, 0x00]); // blue
    b.extend_from_slice(&[0, 0, 0, 0]); // pad
    let info = parse_connect_setup(&b).expect("well-formed response must parse");
    assert_eq!(info.status_code, 1);
    assert_eq!(info.protocol_major_version, 11);
    assert_eq!(info.resource_id_base, 0x0400_0000);
    assert_eq!(info.resource_id_mask, 0x001F_FFFF);
    assert_eq!(info.vendor, b"acme".to_vec());
    assert_eq!(info.num_screens, 1);
    assert_eq!(info.screens.len(), 1);
    assert_eq!(info.screens[0].root, 1);
    assert_eq!(info.screens[0].width_in_pixels, 800);
    assert_eq!(info.screens[0].height_in_pixels, 600);
    assert_eq!(info.screens[0].depths.len(), 1);
    assert_eq!(info.screens[0].depths[0].visuals.len(), 1);
    assert_eq!(info.screens[0].depths[0].visuals[0].id, 0x21);
}

#[test]
fn connect_setup_parser_rejects_failure_status() {
    let mut b: Vec<u8> = vec![0; 40];
    b[0] = 0;
    assert!(parse_connect_setup(&b).is_none());
}
