//! Tests of the allocator, the message decoder, and the manager's
//! event dispatch.

use xwm::allocator::ResourceAllocator;
use xwm::manager::Followup;
use xwm::manager::Request;
use xwm::manager::WindowManager;
use xwm::messages::decode_message;
use xwm::messages::ServerEvent;
use xwm::messages::ServerResponse;
use xwm::models::Screen;
use xwm::models::ScreenBackingStores;

fn plain_window(wid: u32) -> xwm::models::Window {
    xwm::models::Window {
        depth: 24,
        wid,
        parent: 0,
        x: 0,
        y: 0,
        width: 1,
        height: 1,
        border_width: 0,
        class: xwm::models::WindowInputType::CopyFromParent,
        visual_id: 0,
        values: Vec::new(),
    }
}

fn sample_screen() -> Screen {
    let mut s = Screen::empty();
    s.root = 0x25;
    s.black_pixel = 0;
    s.white_pixel = 0xFFFFFF;
    s.width_in_pixels = 800;
    s.height_in_pixels = 600;
    s.root_visual = 0x21;
    s.root_depth = 24;
    s.backing_stores = ScreenBackingStores::Never;
    s
}

#[test]
fn allocated_handles_are_distinct_and_carry_the_base() {
    let base = 0x0400_0000u32;
    let mask = 0x001F_FFFFu32;
    let mut a = ResourceAllocator::new(base, mask);
    let mut seen: Vec<u32> = Vec::new();
    for _ in 0..64 {
        let id = a.allocate().expect("the space is far from exhausted");
        assert_eq!(id & !mask, base & !mask);
        assert!(!seen.contains(&id), "a handle must never repeat");
        seen.push(id);
    }
}

#[test]
fn empty_mask_exhausts_after_one_handle() {
    let mut a = ResourceAllocator::new(7, 0);
    assert!(a.allocate().is_some());
    assert!(a.is_exhausted());
    assert!(a.allocate().is_none());
}

#[test]
fn message_decoder_reads_the_tagged_kinds() {
    let mut b: Vec<u8> = vec![0; 32];
    b[0] = 0;
    b[1] = 3; // error code
    b[2] = 0x2A; // sequence 42
    assert_eq!(
        decode_message(&b),
        Some(ServerResponse::Error { error_code: 3, sequence: 42 })
    );
    let mut r: Vec<u8> = vec![0; 32];
    r[0] = 1;
    r[2] = 7;
    r[4] = 2; // two extra units
    assert_eq!(decode_message(&r), Some(ServerResponse::Reply { sequence: 7, extra: 2 }));
    let mut e: Vec<u8> = vec![0; 32];
    e[0] = 20; // map request
    e[2] = 9;
    e[4] = 0x25; // parent
    e[8] = 0x77; // window
    match decode_message(&e).expect("a well-formed event must decode") {
        ServerResponse::Event { event, sequence, generated } => {
            assert_eq!(sequence, 9);
            assert!(!generated);
            assert_eq!(event, ServerEvent::MapRequest { parent: 0x25, window: 0x77 });
        },
        other => panic!("expected an event, got {:?}", other),
    }
}

#[test]
fn key_press_decoding_reads_state_and_code() {
    let mut e: Vec<u8> = vec![0; 32];
    e[0] = 0x82; // key press, generated by a send-event request
    e[1] = 12; // keycode
    e[28] = 0x40; // fourth modifier held
    match decode_message(&e).expect("a well-formed event must decode") {
        ServerResponse::Event { event, generated, .. } => {
            assert!(generated);
            match event {
                ServerEvent::KeyPress { key_code, state, .. } => {
                    assert_eq!(key_code, 12);
                    assert_eq!(state, 0x40);
                },
                other => panic!("expected a key press, got {:?}", other),
            }
        },
        other => panic!("expected an event, got {:?}", other),
    }
}

#[test]
fn startup_creates_one_workspace_per_screen() {
    let mut out: Vec<Request> = Vec::new();
    let m = WindowManager::new(
        vec![sample_screen()],
        0x0400_0000,
        0x001F_FFFF,
        b":9".to_vec(),
        77,
        &mut out,
    )
    .expect("a fresh handle space suffices");
    assert_eq!(m.workspaces.len(), 1);
    assert_eq!(m.workspaces[0].id, 1);
    assert_eq!(m.current_workspace, 0);
    // The graphics context comes first, then the root subscription.
    assert!(matches!(out[0], Request::CreateGc { .. }));
    assert!(
        matches!(out[1], Request::SelectEvents { wid: 0x25, event_mask: 0x300001 })
    );
    assert!(matches!(out[2], Request::CreateWindow(_)));
}

#[test]
fn modifier_key_to_missing_workspace_creates_and_switches() {
    // A key press with the modifier held and the key mapped to the
    // third workspace, which does not exist yet: a workspace with that
    // identifier appears on the first screen and becomes current; the
    // old root is unmapped and the new one mapped.
    let mut out: Vec<Request> = Vec::new();
    let mut m = WindowManager::new(
        vec![sample_screen()],
        0x0400_0000,
        0x001F_FFFF,
        b":9".to_vec(),
        77,
        &mut out,
    )
    .unwrap();
    let old_root_wid = m.workspaces[0].window.wid;
    let mut reqs: Vec<Request> = Vec::new();
    let follow = m.handle_key_press(12, 0x40, &mut reqs);
    assert!(follow.is_none());
    assert_eq!(m.workspaces.len(), 2);
    assert_eq!(m.workspaces[1].id, 3);
    assert_eq!(m.current_workspace, 1);
    let new_root_wid = m.workspaces[1].window.wid;
    assert!(matches!(reqs[0], Request::CreateWindow(_)));
    match (&reqs[1], &reqs[2]) {
        (Request::UnmapWindow { wid: a }, Request::MapWindow { wid: b }) => {
            assert_eq!(*a, old_root_wid);
            assert_eq!(*b, new_root_wid);
        },
        other => panic!("expected an unmap then a map, got {:?}", other),
    }
    // Pressing the same key again switches without creating.
    let mut reqs2: Vec<Request> = Vec::new();
    m.handle_key_press(12, 0x40, &mut reqs2);
    assert_eq!(m.workspaces.len(), 2);
    assert_eq!(m.current_workspace, 1);
}

#[test]
fn unmodified_keys_are_ignored() {
    let mut out: Vec<Request> = Vec::new();
    let mut m = WindowManager::new(
        vec![sample_screen()],
        0x0400_0000,
        0x001F_FFFF,
        b":9".to_vec(),
        77,
        &mut out,
    )
    .unwrap();
    let mut reqs: Vec<Request> = Vec::new();
    let follow = m.handle_key_press(12, 0, &mut reqs);
    assert!(follow.is_none());
    assert!(reqs.is_empty());
    assert_eq!(m.workspaces.len(), 1);
}

#[test]
fn direction_keys_set_the_split_axis() {
    let mut out: Vec<Request> = Vec::new();
    let mut m = WindowManager::new(
        vec![sample_screen()],
        0x0400_0000,
        0x001F_FFFF,
        b":9".to_vec(),
        77,
        &mut out,
    )
    .unwrap();
    let mut reqs: Vec<Request> = Vec::new();
    m.handle_key_press(43, 0x40, &mut reqs);
    assert!(matches!(m.tile_direction, xwm::tiling::TiledDirection::Horizontal));
    m.handle_key_press(55, 0x40, &mut reqs);
    assert!(matches!(m.tile_direction, xwm::tiling::TiledDirection::Vertical));
    assert!(reqs.is_empty());
}

#[test]
fn helper_key_asks_the_caller_to_spawn() {
    let mut out: Vec<Request> = Vec::new();
    let mut m = WindowManager::new(
        vec![sample_screen()],
        0x0400_0000,
        0x001F_FFFF,
        b":9".to_vec(),
        77,
        &mut out,
    )
    .unwrap();
    let mut reqs: Vec<Request> = Vec::new();
    let follow = m.handle_key_press(36, 0x40, &mut reqs);
    assert_eq!(follow, Some(Followup::SpawnHelper));
}

#[test]
fn map_request_and_title_change_become_followups() {
    let mut out: Vec<Request> = Vec::new();
    let mut m = WindowManager::new(
        vec![sample_screen()],
        0x0400_0000,
        0x001F_FFFF,
        b":9".to_vec(),
        77,
        &mut out,
    )
    .unwrap();
    let mut reqs: Vec<Request> = Vec::new();
    let f1 = m.handle_event(
        &ServerEvent::MapRequest { parent: 0x25, window: 0x99 },
        &mut reqs,
    );
    assert_eq!(f1, Some(Followup::AdoptWindow { parent: 0x25, window: 0x99 }));
    let f2 = m.handle_event(
        &ServerEvent::PropertyNotify { window: 0x99, atom: 77, time: 0, state: 0 },
        &mut reqs,
    );
    assert_eq!(f2, Some(Followup::FetchWindowName { wid: 0x99 }));
    let f3 = m.handle_event(
        &ServerEvent::PropertyNotify { window: 0x99, atom: 5, time: 0, state: 0 },
        &mut reqs,
    );
    assert_eq!(f3, None);
    assert!(reqs.is_empty());
}

#[test]
fn adoption_wraps_reparents_maps_and_tiles() {
    let mut out: Vec<Request> = Vec::new();
    let mut m = WindowManager::new(
        vec![sample_screen()],
        0x0400_0000,
        0x001F_FFFF,
        b":9".to_vec(),
        77,
        &mut out,
    )
    .unwrap();
    let mut reqs: Vec<Request> = Vec::new();
    let foreign = xwm::models::Window {
        depth: 24,
        wid: 0x99,
        parent: 0x25,
        x: 0,
        y: 0,
        width: 640,
        height: 480,
        border_width: 0,
        class: xwm::models::WindowInputType::InputOutput,
        visual_id: 0x21,
        values: Vec::new(),
    };
    let parent = plain_window(0x25);
    let wrapper_wid = m
        .complete_map_request(foreign, parent, b"term".to_vec(), &mut reqs)
        .expect("handles remain");
    assert!(matches!(reqs[0], Request::CreateWindow(_)));
    assert!(matches!(
        reqs[1],
        Request::SelectEvents { wid: 0x99, event_mask: 0x400000 }
    ));
    match reqs[2] {
        Request::ReparentWindow { window, parent, x, y } => {
            assert_eq!(window, 0x99);
            assert_eq!(parent, wrapper_wid);
            assert_eq!((x, y), (0, 20));
        },
        ref other => panic!("expected a reparent, got {:?}", other),
    }
    assert!(matches!(reqs[3], Request::MapWindow { wid: 0x99 }));
    assert!(matches!(reqs[4], Request::MapWindow { wid } if wid == wrapper_wid));
    // The tiling pass configures the wrapper over the full workspace.
    assert!(reqs[5..].iter().any(|r| matches!(
        r,
        Request::ConfigureWindow { wid, x: 0, y: 0, width: 800, height: 600 } if *wid == wrapper_wid
    )));
    // The adopted window holds the focus.
    assert_eq!(m.get_focused().unwrap().window.wid, 0x99);
    // Destroying it empties the tree again.
    let mut reqs2: Vec<Request> = Vec::new();
    m.destroy_window(0x99, &mut reqs2);
    assert!(matches!(reqs2[0], Request::DestroyWindow { wid } if wid == wrapper_wid));
    assert!(m.get_focused().is_none());
}

#[test]
fn foreign_window_gains_a_title_bar_strip() {
    let mut out: Vec<Request> = Vec::new();
    let mut m = WindowManager::new(
        vec![sample_screen()],
        0x0400_0000,
        0x001F_FFFF,
        b":9".to_vec(),
        77,
        &mut out,
    )
    .unwrap();
    let mut reqs: Vec<Request> = Vec::new();
    let foreign = xwm::models::Window {
        depth: 24,
        wid: 0x99,
        parent: 0x25,
        x: 3,
        y: 4,
        width: 640,
        height: 480,
        border_width: 0,
        class: xwm::models::WindowInputType::InputOutput,
        visual_id: 0x21,
        values: Vec::new(),
    };
    let parent = plain_window(0x25);
    m.complete_map_request(foreign, parent, Vec::new(), &mut reqs).unwrap();
    match &reqs[0] {
        Request::CreateWindow(w) => {
            assert_eq!(w.width, 640);
            assert_eq!(w.height, 500, "the wrapper reserves the title strip");
            assert_eq!(w.parent, m.workspaces[0].window.wid);
        },
        other => panic!("expected the wrapper creation, got {:?}", other),
    }
}


#[test]
fn malformed_boolean_bytes_are_fatal() {
    // A key press whose same-screen byte is neither 0 nor 1 cannot be
    // decoded: the stream has desynchronized.
    let mut e: Vec<u8> = vec![0; 32];
    e[0] = 2;
    e[30] = 2;
    assert_eq!(decode_message(&e), None);
    // The same for an unmap notification's from-configure byte.
    let mut u: Vec<u8> = vec![0; 32];
    u[0] = 18;
    u[12] = 7;
    assert_eq!(decode_message(&u), None);
}

#[test]
fn new_workspace_lands_on_the_active_screen() {
    // Two screens give two workspaces at startup, the second (on the
    // second screen) current.  A key naming a missing workspace must
    // create it on that currently active screen, not the first.
    let mut second = sample_screen();
    second.root = 0x30;
    second.width_in_pixels = 1024;
    second.height_in_pixels = 768;
    let mut out: Vec<Request> = Vec::new();
    let mut m = WindowManager::new(
        vec![sample_screen(), second],
        0x0400_0000,
        0x001F_FFFF,
        b":9".to_vec(),
        77,
        &mut out,
    )
    .unwrap();
    assert_eq!(m.workspaces.len(), 2);
    assert_eq!(m.workspaces[0].screen, 0);
    assert_eq!(m.workspaces[1].screen, 1);
    assert_eq!(m.current_workspace, 1);
    let mut reqs: Vec<Request> = Vec::new();
    m.handle_key_press(14, 0x40, &mut reqs);
    assert_eq!(m.workspaces.len(), 3);
    assert_eq!(m.workspaces[2].id, 5);
    assert_eq!(m.workspaces[2].screen, 1);
    assert_eq!(m.workspaces[2].window.parent, 0x30);
    assert_eq!(m.workspaces[2].window.width, 1024);
    assert_eq!(m.workspaces[2].window.height, 768);
}

#[test]
fn workspace_window_matches_its_screen() {
    let mut out: Vec<Request> = Vec::new();
    let m = WindowManager::new(
        vec![sample_screen()],
        0x0400_0000,
        0x001F_FFFF,
        b":9".to_vec(),
        77,
        &mut out,
    )
    .unwrap();
    let w = &m.workspaces[0].window;
    assert_eq!(w.parent, 0x25);
    assert_eq!(w.depth, 24);
    assert_eq!(w.visual_id, 0x21);
    assert_eq!((w.width, w.height), (800, 600));
    assert_eq!((w.x, w.y), (0, 0));
}
