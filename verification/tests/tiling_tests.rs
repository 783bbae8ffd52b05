//! Scenario tests of the tiling tree: shape after add and remove, the
//! focus invariant, geometry, and the incremental re-layout.

use xwm::manager::ManagedWindow;
use xwm::models::Window;
use xwm::models::WindowInputType;
use xwm::tiling::TileCommand;
use xwm::tiling::Tiled;
use xwm::tiling::TiledChild;
use xwm::tiling::TiledDirection;

fn plain_window(wid: u32) -> Window {
    Window {
        depth: 24,
        wid,
        parent: 1,
        x: 0,
        y: 0,
        width: 100,
        height: 100,
        border_width: 0,
        class: WindowInputType::CopyFromParent,
        visual_id: 0x21,
        values: Vec::new(),
    }
}

fn managed(window_wid: u32, wrapper_wid: u32) -> ManagedWindow {
    ManagedWindow::new(
        plain_window(window_wid),
        plain_window(wrapper_wid),
        plain_window(1),
        b"title".to_vec(),
    )
}

fn count_focused(t: &Tiled) -> usize {
    fn count_child(c: &TiledChild) -> usize {
        match c {
            TiledChild::Window(w) => {
                if w.focused {
                    1
                } else {
                    0
                }
            },
            TiledChild::Tiled(t) => t.children.iter().map(count_child).sum(),
        }
    }
    t.children.iter().map(count_child).sum()
}

fn check_shape(t: &Tiled) {
    fn check_child(c: &TiledChild) {
        if let TiledChild::Tiled(t) = c {
            assert_eq!(t.children.len(), 2, "an inner split must hold two children");
            for k in t.children.iter() {
                check_child(k);
            }
        }
    }
    assert!(t.children.len() <= 2, "a root holds at most two children");
    if t.children.len() == 1 {
        assert!(
            matches!(t.children[0], TiledChild::Window(_)),
            "a sole root child must be a window"
        );
    }
    for k in t.children.iter() {
        check_child(k);
    }
}

#[test]
fn add_makes_sole_window_focused() {
    let mut t = Tiled::new_0(TiledDirection::Vertical);
    t.add(managed(10, 11), TiledDirection::Vertical);
    check_shape(&t);
    assert_eq!(count_focused(&t), 1);
    assert_eq!(t.get_focused().unwrap().window.wid, 10);
}

#[test]
fn add_splits_the_focused_leaf() {
    // One window, focused; adding a second along the vertical axis
    // yields a pair with the old window unfocused and the new focused.
    let mut t = Tiled::new_0(TiledDirection::Horizontal);
    t.add(managed(10, 11), TiledDirection::Vertical);
    t.add(managed(20, 21), TiledDirection::Vertical);
    check_shape(&t);
    assert_eq!(t.children.len(), 2);
    assert_eq!(count_focused(&t), 1);
    match (&t.children[0], &t.children[1]) {
        (TiledChild::Window(a), TiledChild::Window(b)) => {
            assert_eq!(a.window.wid, 10);
            assert!(!a.focused);
            assert_eq!(b.window.wid, 20);
            assert!(b.focused);
        },
        _ => panic!("expected two window leaves"),
    }
}

#[test]
fn shape_and_focus_hold_over_add_remove_sequences() {
    let mut t = Tiled::new_0(TiledDirection::Vertical);
    for k in 0..5u32 {
        t.add(managed(10 + k, 110 + k), TiledDirection::Vertical);
        check_shape(&t);
        assert_eq!(count_focused(&t), 1);
    }
    for k in [12u32, 10, 13] {
        assert!(t.remove(k));
        check_shape(&t);
        assert_eq!(count_focused(&t), 1);
    }
    assert!(!t.remove(99));
    check_shape(&t);
    assert_eq!(count_focused(&t), 1);
}

#[test]
fn remove_of_focused_window_focuses_first_leaf() {
    let mut t = Tiled::new_0(TiledDirection::Vertical);
    t.add(managed(10, 11), TiledDirection::Vertical);
    t.add(managed(20, 21), TiledDirection::Vertical);
    // The second window holds the focus; removing it must move the
    // focus to the first leaf in document order.
    assert!(t.remove(20));
    assert_eq!(count_focused(&t), 1);
    assert_eq!(t.get_focused().unwrap().window.wid, 10);
}

#[test]
fn set_focused_moves_the_focus() {
    let mut t = Tiled::new_0(TiledDirection::Vertical);
    t.add(managed(10, 11), TiledDirection::Vertical);
    t.add(managed(20, 21), TiledDirection::Vertical);
    assert!(t.set_focused(10));
    assert_eq!(count_focused(&t), 1);
    assert_eq!(t.get_focused().unwrap().window.wid, 10);
    // A wrapper handle works as well.
    assert!(t.set_focused(21));
    assert_eq!(t.get_focused().unwrap().window.wid, 20);
    assert!(!t.set_focused(99));
}

#[test]
fn locate_focused_returns_the_path() {
    let mut t = Tiled::new_0(TiledDirection::Vertical);
    t.add(managed(10, 11), TiledDirection::Vertical);
    t.add(managed(20, 21), TiledDirection::Vertical);
    t.add(managed(30, 31), TiledDirection::Horizontal);
    let mut path: Vec<usize> = Vec::new();
    assert!(t.locate_focused(&mut path));
    // The third window replaced the focused second leaf by a nested
    // pair and sits as its second child.
    assert_eq!(path, vec![1, 1]);
}

#[test]
fn vertical_tile_splits_a_region_at_its_midpoint() {
    // The scenario: W1 then W2 added vertically, tiled over 800 by 600
    // at the origin.  The wrappers get the top and bottom halves.
    let mut t = Tiled::new_0(TiledDirection::Vertical);
    t.add(managed(10, 11), TiledDirection::Vertical);
    t.add(managed(20, 21), TiledDirection::Vertical);
    let mut cmds: Vec<TileCommand> = Vec::new();
    t.tile(0, 0, 800, 600, false, &mut cmds);
    assert_eq!(
        cmds[0],
        TileCommand::ConfigureWrapper { wid: 11, x: 0, y: 0, width: 800, height: 300 }
    );
    assert_eq!(
        cmds[1],
        TileCommand::ConfigureWindow { wid: 10, x: 0, y: 20, width: 799, height: 279 }
    );
    assert_eq!(
        cmds[3],
        TileCommand::ConfigureWrapper { wid: 21, x: 0, y: 300, width: 800, height: 300 }
    );
    assert_eq!(cmds.len(), 6);
}

#[test]
fn removal_collapses_to_the_full_rectangle() {
    // Removing W1 from the pair collapses the tree to the single leaf
    // W2, and a following pass gives it the whole region.
    let mut t = Tiled::new_0(TiledDirection::Vertical);
    t.add(managed(10, 11), TiledDirection::Vertical);
    t.add(managed(20, 21), TiledDirection::Vertical);
    let mut cmds: Vec<TileCommand> = Vec::new();
    t.tile(0, 0, 800, 600, false, &mut cmds);
    assert!(t.remove(10));
    check_shape(&t);
    assert_eq!(t.children.len(), 1);
    let mut cmds2: Vec<TileCommand> = Vec::new();
    t.tile(0, 0, 800, 600, false, &mut cmds2);
    assert_eq!(
        cmds2[0],
        TileCommand::ConfigureWrapper { wid: 21, x: 0, y: 0, width: 800, height: 600 }
    );
}

#[test]
fn second_tile_pass_issues_nothing() {
    let mut t = Tiled::new_0(TiledDirection::Vertical);
    t.add(managed(10, 11), TiledDirection::Vertical);
    t.add(managed(20, 21), TiledDirection::Vertical);
    let mut first: Vec<TileCommand> = Vec::new();
    t.tile(0, 0, 800, 600, false, &mut first);
    assert!(!first.is_empty());
    let mut second: Vec<TileCommand> = Vec::new();
    t.tile(0, 0, 800, 600, false, &mut second);
    assert!(second.is_empty(), "a clean tree must issue no commands");
    // A forced pass still repaints everything.
    let mut forced: Vec<TileCommand> = Vec::new();
    t.tile(0, 0, 800, 600, true, &mut forced);
    assert_eq!(forced.len(), first.len());
}

#[test]
fn swap_exchanges_the_two_children() {
    let mut t = Tiled::new_0(TiledDirection::Vertical);
    t.add(managed(10, 11), TiledDirection::Vertical);
    t.add(managed(20, 21), TiledDirection::Vertical);
    t.swap();
    match (&t.children[0], &t.children[1]) {
        (TiledChild::Window(a), TiledChild::Window(b)) => {
            assert_eq!(a.window.wid, 20);
            assert_eq!(b.window.wid, 10);
        },
        _ => panic!("expected two window leaves"),
    }
    assert!(t.is_dirty());
}

#[test]
fn get_window_finds_by_either_handle() {
    let mut t = Tiled::new_0(TiledDirection::Vertical);
    t.add(managed(10, 11), TiledDirection::Vertical);
    t.add(managed(20, 21), TiledDirection::Vertical);
    assert_eq!(t.get_window(10).unwrap().wrapper.wid, 11);
    assert_eq!(t.get_window(21).unwrap().window.wid, 20);
    assert!(t.get_window(99).is_none());
}

#[test]
fn set_window_name_renames_the_matching_window() {
    let mut t = Tiled::new_0(TiledDirection::Vertical);
    t.add(managed(10, 11), TiledDirection::Vertical);
    assert!(t.set_window_name(10, b"renamed".to_vec()).is_none());
    assert_eq!(t.get_window(10).unwrap().name, b"renamed".to_vec());
    assert_eq!(t.set_window_name(99, b"lost".to_vec()), Some(b"lost".to_vec()));
}
