//! The tiling engine: a binary space-partition tree per workspace.
//!
//! A node is either a single managed window (a leaf) or a split holding
//! one or two children.  The tree's shape changes only through `add` and
//! `remove`; geometry is derived by `tile`, never stored on inner nodes.
//! Each executable operation's contract states the new tree as a pure
//! transformation of the old one over the `TileView` model.

use vstd::prelude::*;

use crate::manager::ManagedWindow;

verus! {

/// The axis a split divides its rectangle along.
#[derive(Debug, Clone, Copy, PartialEq, Eq, Structural)]
pub enum TiledDirection {
    Vertical,
    Horizontal,
}

/// One child of a split: a managed window or a nested split.
#[derive(Debug)]
pub enum TiledChild {
    Window(ManagedWindow),
    Tiled(Tiled),
}

/// A split node: an ordered list of at most two children, a direction,
/// a pixel offset from the even split point, and a dirty flag that
/// marks its subtree for re-layout.
#[derive(Debug)]
pub struct Tiled {
    pub children: Vec<TiledChild>,
    pub direction: TiledDirection,
    pub offset: i16,
    pub dirty: bool,
}

/// The mathematical shape of a tiling tree, used by every contract.
#[verifier::ext_equal]
pub enum TileView {
    Leaf(ManagedWindow),
    Split { kids: Seq<TileView>, direction: TiledDirection, offset: i16, dirty: bool },
}

/// The view of one child.
pub open spec fn child_view(c: TiledChild) -> TileView
    decreases c,
{
    match c {
        TiledChild::Window(w) => TileView::Leaf(w),
        TiledChild::Tiled(t) => tiled_view(t),
    }
}

/// The view of a split node.  Only the first two children count: a
/// well-formed node never has more.
pub open spec fn tiled_view(t: Tiled) -> TileView
    decreases t,
{
    let s = t.children@;
    TileView::Split {
        kids: if s.len() == 0 {
            Seq::empty()
        } else if s.len() == 1 {
            seq![child_view(s[0])]
        } else {
            seq![child_view(s[0]), child_view(s[1])]
        },
        direction: t.direction,
        offset: t.offset,
        dirty: t.dirty,
    }
}

impl View for Tiled {
    type V = TileView;

    open spec fn view(&self) -> TileView {
        tiled_view(*self)
    }
}

impl View for TiledChild {
    type V = TileView;

    open spec fn view(&self) -> TileView {
        child_view(*self)
    }
}

/// One outbound effect of a tiling pass: a geometry change for a
/// wrapper or its contained window, or a request that the server
/// repaint a wrapper.
#[derive(Debug, Clone, Copy, PartialEq, Eq, Structural)]
pub enum TileCommand {
    ConfigureWrapper { wid: u32, x: i16, y: i16, width: u16, height: u16 },
    ConfigureWindow { wid: u32, x: i16, y: i16, width: u16, height: u16 },
    Expose { wid: u32, width: u16, height: u16 },
}

/// The commands a leaf receives for a rectangle: the wrapper fills it,
/// the contained window sits inset below the title strip with a
/// one-pixel margin, and the wrapper is asked to repaint at its
/// last-known size.
pub open spec fn leaf_cmds(w: ManagedWindow, x: i16, y: i16, width: u16, height: u16) -> Seq<
    TileCommand,
> {
    seq![
        TileCommand::ConfigureWrapper { wid: w.wrapper.wid, x, y, width, height },
        TileCommand::ConfigureWindow {
            wid: w.window.wid,
            x: 0i16,
            y: 20i16,
            width: if width >= 1 {
                (width - 1) as u16
            } else {
                0u16
            },
            height: if height >= 21 {
                (height - 21) as u16
            } else {
                0u16
            },
        },
        TileCommand::Expose { wid: w.wrapper.wid, width: w.wrapper.width, height: w.wrapper.height },
    ]
}

/// Well-formedness of a child node: an inner split holds exactly two
/// well-formed children.
pub open spec fn child_wf(c: TiledChild) -> bool
    decreases c,
{
    match c {
        TiledChild::Window(_) => true,
        TiledChild::Tiled(t) => {
            &&& t.children@.len() == 2
            &&& child_wf(t.children@[0])
            &&& child_wf(t.children@[1])
        },
    }
}

/// Whether a leaf answers to the given handle, by window or by wrapper.
pub open spec fn leaf_matches(w: ManagedWindow, wid: u32) -> bool {
    w.window.wid == wid || w.wrapper.wid == wid
}

/// The first window in a leaf sequence that answers to the handle.
pub open spec fn spec_find(s: Seq<ManagedWindow>, wid: u32) -> Option<ManagedWindow>
    decreases s.len(),
{
    if s.len() == 0 {
        None
    } else if leaf_matches(s[0], wid) {
        Some(s[0])
    } else {
        spec_find(s.drop_first(), wid)
    }
}

/// Whether some leaf in the sequence answers to the handle.
pub open spec fn seq_has_wid(s: Seq<ManagedWindow>, wid: u32) -> bool {
    spec_find(s, wid) is Some
}

/// How many leaves in the sequence answer to the handle.
pub open spec fn count_matching(s: Seq<ManagedWindow>, wid: u32) -> nat
    decreases s.len(),
{
    if s.len() == 0 {
        0
    } else {
        (if leaf_matches(s[0], wid) {
            1nat
        } else {
            0nat
        }) + count_matching(s.drop_first(), wid)
    }
}

/// How many leaves in the sequence are focused.
pub open spec fn count_focused(s: Seq<ManagedWindow>) -> nat
    decreases s.len(),
{
    if s.len() == 0 {
        0
    } else {
        (if s[0].focused {
            1nat
        } else {
            0nat
        }) + count_focused(s.drop_first())
    }
}

/// The first focused window of a leaf sequence.
pub open spec fn spec_first_focused(s: Seq<ManagedWindow>) -> Option<ManagedWindow>
    decreases s.len(),
{
    if s.len() == 0 {
        None
    } else if s[0].focused {
        Some(s[0])
    } else {
        spec_first_focused(s.drop_first())
    }
}

impl TileView {
    /// Every inner split holds exactly two well-formed children.
    pub open spec fn subtree_wf(self) -> bool
        decreases self,
    {
        match self {
            TileView::Leaf(_) => true,
            TileView::Split { kids, .. } => {
                &&& kids.len() == 2
                &&& kids[0].subtree_wf()
                &&& kids[1].subtree_wf()
            },
        }
    }

    /// A workspace root is a split with at most two well-formed
    /// children; a root with a single child holds a leaf there, never
    /// an uncollapsed split.
    pub open spec fn root_wf(self) -> bool {
        match self {
            TileView::Leaf(_) => false,
            TileView::Split { kids, .. } => {
                &&& kids.len() <= 2
                &&& (forall|i: int| 0 <= i < kids.len() ==> (#[trigger] kids[i]).subtree_wf())
                &&& (kids.len() == 1 ==> kids[0] is Leaf)
            },
        }
    }

    /// Every child of this node is a well-formed subtree.
    pub open spec fn kids_wf(self) -> bool {
        match self {
            TileView::Leaf(_) => true,
            TileView::Split { kids, .. } => forall|i: int|
                0 <= i < kids.len() ==> (#[trigger] kids[i]).subtree_wf(),
        }
    }

    /// All managed windows of the subtree, in document order.
    pub open spec fn windows(self) -> Seq<ManagedWindow>
        decreases self,
    {
        match self {
            TileView::Leaf(w) => seq![w],
            TileView::Split { kids, .. } => {
                if kids.len() == 0 {
                    Seq::empty()
                } else if kids.len() == 1 {
                    kids[0].windows()
                } else {
                    kids[0].windows() + kids[1].windows()
                }
            },
        }
    }

    /// Every split of the subtree sits at its even split point.
    pub open spec fn offsets_zero(self) -> bool
        decreases self,
    {
        match self {
            TileView::Leaf(_) => true,
            TileView::Split { kids, offset, .. } => {
                &&& offset == 0
                &&& (kids.len() >= 1 ==> kids[0].offsets_zero())
                &&& (kids.len() >= 2 ==> kids[1].offsets_zero())
            },
        }
    }

    /// The tree after focusing every leaf that answers to the handle
    /// and unfocusing every other leaf; every split is marked dirty.
    pub open spec fn refocus(self, wid: u32) -> TileView
        decreases self,
    {
        match self {
            TileView::Leaf(w) => TileView::Leaf(w.with_focused(leaf_matches(w, wid))),
            TileView::Split { kids, direction, offset, dirty } => TileView::Split {
                kids: if kids.len() == 0 {
                    kids
                } else if kids.len() == 1 {
                    seq![kids[0].refocus(wid)]
                } else {
                    seq![kids[0].refocus(wid), kids[1].refocus(wid)]
                },
                direction,
                offset,
                dirty: true,
            },
        }
    }

    /// The path of child indices that leads depth-first to the first
    /// focused leaf, paired with whether one exists.
    pub open spec fn focused_path(self) -> (Seq<usize>, bool)
        decreases self,
    {
        match self {
            TileView::Leaf(w) => (Seq::empty(), w.focused),
            TileView::Split { kids, .. } => {
                if kids.len() == 0 {
                    (Seq::empty(), false)
                } else {
                    let (p0, f0) = kids[0].focused_path();
                    if f0 {
                        (seq![0usize] + p0, true)
                    } else if kids.len() >= 2 {
                        let (p1, f1) = kids[1].focused_path();
                        if f1 {
                            (seq![1usize] + p1, true)
                        } else {
                            (Seq::empty(), false)
                        }
                    } else {
                        (Seq::empty(), false)
                    }
                }
            },
        }
    }

    /// Splits the first focused leaf, depth-first, into a pair of the
    /// old leaf (unfocused) and the new window (focused), along the
    /// given direction.  The second component reports whether a focused
    /// leaf was found; when none is, the tree is returned unchanged.
    pub open spec fn try_add(self, w: ManagedWindow, d: TiledDirection) -> (TileView, bool)
        decreases self,
    {
        match self {
            TileView::Leaf(l) => {
                if l.focused {
                    (
                        TileView::Split {
                            kids: seq![
                                TileView::Leaf(l.with_focused(false)),
                                TileView::Leaf(w.with_focused(true)),
                            ],
                            direction: d,
                            offset: 0i16,
                            dirty: true,
                        },
                        true,
                    )
                } else {
                    (self, false)
                }
            },
            TileView::Split { kids, direction, offset, dirty } => {
                if kids.len() == 0 {
                    (self, false)
                } else {
                    let (c0, a0) = kids[0].try_add(w, d);
                    if a0 {
                        (
                            TileView::Split {
                                kids: kids.update(0, c0),
                                direction,
                                offset,
                                dirty: true,
                            },
                            true,
                        )
                    } else if kids.len() >= 2 {
                        let (c1, a1) = kids[1].try_add(w, d);
                        if a1 {
                            (
                                TileView::Split {
                                    kids: kids.update(1, c1),
                                    direction,
                                    offset,
                                    dirty: true,
                                },
                                true,
                            )
                        } else {
                            (self, false)
                        }
                    } else {
                        (self, false)
                    }
                }
            },
        }
    }

    /// Splits the first leaf in document order into a pair of the old
    /// leaf (unfocused) and the new window (focused).  This is the
    /// fallback used when no leaf holds focus though windows exist.
    pub open spec fn pair_first(self, w: ManagedWindow, d: TiledDirection) -> TileView
        decreases self,
    {
        match self {
            TileView::Leaf(l) => TileView::Split {
                kids: seq![
                    TileView::Leaf(l.with_focused(false)),
                    TileView::Leaf(w.with_focused(true)),
                ],
                direction: d,
                offset: 0i16,
                dirty: true,
            },
            TileView::Split { kids, direction, offset, dirty } => {
                if kids.len() == 0 {
                    self
                } else {
                    TileView::Split {
                        kids: kids.update(0, kids[0].pair_first(w, d)),
                        direction,
                        offset,
                        dirty: true,
                    }
                }
            },
        }
    }

    /// The workspace tree after adding a window at the focused leaf.
    /// An empty tree gains the window as its sole, focused leaf; a
    /// root holding one focused leaf becomes the pair directly, with
    /// the root split taking the requested direction; otherwise the
    /// focused leaf is split in place, and when no leaf holds focus the
    /// window is placed at the first leaf as a safety net.
    pub open spec fn spec_add(self, w: ManagedWindow, d: TiledDirection) -> TileView {
        match self {
            TileView::Leaf(_) => self,
            TileView::Split { kids, direction, offset, dirty } => {
                if kids.len() == 0 {
                    TileView::Split {
                        kids: seq![TileView::Leaf(w.with_focused(true))],
                        direction: d,
                        offset,
                        dirty: true,
                    }
                } else if kids.len() == 1 && kids[0] is Leaf && kids[0]->0.focused {
                    TileView::Split {
                        kids: seq![
                            TileView::Leaf(kids[0]->0.with_focused(false)),
                            TileView::Leaf(w.with_focused(true)),
                        ],
                        direction: d,
                        offset,
                        dirty: true,
                    }
                } else {
                    let (t2, added) = self.try_add(w, d);
                    if added {
                        t2
                    } else {
                        self.add_fallback(w, d)
                    }
                }
            },
        }
    }

    /// The safety-net insertion: a root with fewer than two children
    /// gains the window as a new focused leaf and takes the requested
    /// direction; a full root pairs the window with its first leaf.
    pub open spec fn add_fallback(self, w: ManagedWindow, d: TiledDirection) -> TileView {
        match self {
            TileView::Leaf(_) => self,
            TileView::Split { kids, direction, offset, dirty } => {
                if kids.len() < 2 {
                    TileView::Split {
                        kids: kids.push(TileView::Leaf(w.with_focused(true))),
                        direction: d,
                        offset,
                        dirty: true,
                    }
                } else {
                    TileView::Split {
                        kids: kids.update(0, kids[0].pair_first(w, d)),
                        direction,
                        offset,
                        dirty: true,
                    }
                }
            },
        }
    }

    /// A split left holding a single child gives way to that child.
    pub open spec fn collapse(self) -> TileView {
        match self {
            TileView::Leaf(_) => self,
            TileView::Split { kids, .. } => {
                if kids.len() == 1 {
                    kids[0]
                } else {
                    self
                }
            },
        }
    }

    /// Removes the first leaf, depth-first, that answers to the handle.
    /// A nested split that loses a child to the removal is collapsed in
    /// its parent; splits on the modified path are marked dirty.  The
    /// second component reports whether a leaf was removed.
    pub open spec fn remove_node(self, wid: u32) -> (TileView, bool)
        decreases self,
    {
        match self {
            TileView::Leaf(_) => (self, false),
            TileView::Split { kids, direction, offset, dirty } => {
                if kids.len() == 0 {
                    (self, false)
                } else if kids[0] is Leaf && leaf_matches(kids[0]->0, wid) {
                    (
                        TileView::Split { kids: kids.remove(0), direction, offset, dirty: true },
                        true,
                    )
                } else if kids[0] is Split && kids[0].remove_node(wid).1 {
                    (
                        TileView::Split {
                            kids: kids.update(0, kids[0].remove_node(wid).0.collapse()),
                            direction,
                            offset,
                            dirty: true,
                        },
                        true,
                    )
                } else if kids.len() >= 2 {
                    if kids[1] is Leaf && leaf_matches(kids[1]->0, wid) {
                        (
                            TileView::Split {
                                kids: kids.remove(1),
                                direction,
                                offset,
                                dirty: true,
                            },
                            true,
                        )
                    } else if kids[1] is Split && kids[1].remove_node(wid).1 {
                        (
                            TileView::Split {
                                kids: kids.update(1, kids[1].remove_node(wid).0.collapse()),
                                direction,
                                offset,
                                dirty: true,
                            },
                            true,
                        )
                    } else {
                        (self, false)
                    }
                } else {
                    (self, false)
                }
            },
        }
    }

    /// A root left holding a single split adopts that split's children,
    /// direction and offset, and stays marked dirty.
    pub open spec fn root_splice(self) -> TileView {
        match self {
            TileView::Leaf(_) => self,
            TileView::Split { kids, .. } => {
                if kids.len() == 1 && kids[0] is Split {
                    TileView::Split {
                        kids: kids[0]->Split_kids,
                        direction: kids[0]->Split_direction,
                        offset: kids[0]->Split_offset,
                        dirty: true,
                    }
                } else {
                    self
                }
            },
        }
    }

    /// The workspace tree after removing the window that answers to the
    /// handle: the leaf is removed, a root left holding a sole split is
    /// spliced, and if no leaf is focused afterwards though windows
    /// remain, the first leaf in document order takes the focus.
    pub open spec fn spec_remove(self, wid: u32) -> (TileView, bool) {
        let (r, removed) = self.remove_node(wid);
        if !removed {
            (self, false)
        } else {
            let spliced = r.root_splice();
            if spliced.windows().len() > 0 && spec_first_focused(spliced.windows()) is None {
                (spliced.focus_first(), true)
            } else {
                (spliced, true)
            }
        }
    }

    /// The commands a tiling pass over this subtree issues for the
    /// given rectangle.  A clean split is skipped unless forced; a
    /// two-child split divides its rectangle along its direction at the
    /// midpoint plus its pixel offset.
    pub open spec fn tile_cmds(self, x: i16, y: i16, width: u16, height: u16, force: bool) -> Seq<
        TileCommand,
    >
        decreases self,
    {
        match self {
            TileView::Leaf(w) => leaf_cmds(w, x, y, width, height),
            TileView::Split { kids, direction, offset, dirty } => {
                if !dirty && !force {
                    Seq::empty()
                } else if kids.len() == 0 {
                    Seq::empty()
                } else if kids.len() == 1 {
                    kids[0].tile_cmds(x, y, width, height, force)
                } else {
                    match direction {
                        TiledDirection::Vertical => {
                            let half = height as int / 2;
                            kids[0].tile_cmds(x, y, width, (half + offset) as u16, force)
                                + kids[1].tile_cmds(
                                x,
                                (y + half + offset) as i16,
                                width,
                                (half - offset) as u16,
                                force,
                            )
                        },
                        TiledDirection::Horizontal => {
                            let half = width as int / 2;
                            kids[0].tile_cmds(x, y, (half + offset) as u16, height, force)
                                + kids[1].tile_cmds(
                                (x + half + offset) as i16,
                                y,
                                (half - offset) as u16,
                                height,
                                force,
                            )
                        },
                    }
                }
            },
        }
    }

    /// The tree a tiling pass leaves behind: every split it visited is
    /// clean; a split it skipped keeps its flags.
    pub open spec fn after_tile(self, force: bool) -> TileView
        decreases self,
    {
        match self {
            TileView::Leaf(_) => self,
            TileView::Split { kids, direction, offset, dirty } => {
                if !dirty && !force {
                    self
                } else if kids.len() == 0 {
                    self
                } else {
                    TileView::Split {
                        kids: if kids.len() == 1 {
                            seq![kids[0].after_tile(force)]
                        } else {
                            seq![kids[0].after_tile(force), kids[1].after_tile(force)]
                        },
                        direction,
                        offset,
                        dirty: false,
                    }
                }
            },
        }
    }

    /// Whether some leaf's window answers to the handle; a wrapper
    /// handle does not count.  This is the leaf a renaming reaches.
    pub open spec fn has_window(self, wid: u32) -> bool
        decreases self,
    {
        match self {
            TileView::Leaf(w) => w.window.wid == wid,
            TileView::Split { kids, .. } => {
                if kids.len() == 0 {
                    false
                } else if kids.len() == 1 {
                    kids[0].has_window(wid)
                } else {
                    kids[0].has_window(wid) || kids[1].has_window(wid)
                }
            },
        }
    }

    /// The tree after giving the first leaf whose window answers to the
    /// handle a new display name; the second component reports whether
    /// one was found.
    pub open spec fn rename(self, wid: u32, name: Vec<u8>) -> (TileView, bool)
        decreases self,
    {
        match self {
            TileView::Leaf(w) => {
                if w.window.wid == wid {
                    (TileView::Leaf(w.with_name(name)), true)
                } else {
                    (self, false)
                }
            },
            TileView::Split { kids, direction, offset, dirty } => {
                if kids.len() == 0 {
                    (self, false)
                } else {
                    let (c0, f0) = kids[0].rename(wid, name);
                    if f0 {
                        (
                            TileView::Split { kids: kids.update(0, c0), direction, offset, dirty },
                            true,
                        )
                    } else if kids.len() >= 2 {
                        let (c1, f1) = kids[1].rename(wid, name);
                        if f1 {
                            (
                                TileView::Split {
                                    kids: kids.update(1, c1),
                                    direction,
                                    offset,
                                    dirty,
                                },
                                true,
                            )
                        } else {
                            (self, false)
                        }
                    } else {
                        (self, false)
                    }
                }
            },
        }
    }

    /// The tree after marking its first leaf in document order focused;
    /// the splits on the path are marked dirty.
    pub open spec fn focus_first(self) -> TileView
        decreases self,
    {
        match self {
            TileView::Leaf(w) => TileView::Leaf(w.with_focused(true)),
            TileView::Split { kids, direction, offset, dirty } => TileView::Split {
                kids: if kids.len() == 0 {
                    kids
                } else {
                    kids.update(0, kids[0].focus_first())
                },
                direction,
                offset,
                dirty: true,
            },
        }
    }
}

/// Searching a concatenation finds the first hit of the left part, or
/// else the first hit of the right part.
pub proof fn lemma_find_append(s0: Seq<ManagedWindow>, s1: Seq<ManagedWindow>, wid: u32)
    ensures
        spec_find(s0 + s1, wid) == (if spec_find(s0, wid) is Some {
            spec_find(s0, wid)
        } else {
            spec_find(s1, wid)
        }),
    decreases s0.len(),
{
    if s0.len() == 0 {
        assert(s0 + s1 =~= s1);
    } else {
        assert((s0 + s1).drop_first() =~= s0.drop_first() + s1);
        lemma_find_append(s0.drop_first(), s1, wid);
    }
}

/// Focused leaves add up over concatenation.
pub proof fn lemma_count_focused_append(s0: Seq<ManagedWindow>, s1: Seq<ManagedWindow>)
    ensures
        count_focused(s0 + s1) == count_focused(s0) + count_focused(s1),
    decreases s0.len(),
{
    if s0.len() == 0 {
        assert(s0 + s1 =~= s1);
    } else {
        assert((s0 + s1).drop_first() =~= s0.drop_first() + s1);
        lemma_count_focused_append(s0.drop_first(), s1);
    }
}

/// Matching leaves add up over concatenation.
pub proof fn lemma_count_matching_append(s0: Seq<ManagedWindow>, s1: Seq<ManagedWindow>, wid: u32)
    ensures
        count_matching(s0 + s1, wid) == count_matching(s0, wid) + count_matching(s1, wid),
    decreases s0.len(),
{
    if s0.len() == 0 {
        assert(s0 + s1 =~= s1);
    } else {
        assert((s0 + s1).drop_first() =~= s0.drop_first() + s1);
        lemma_count_matching_append(s0.drop_first(), s1, wid);
    }
}

/// The first focused leaf of a concatenation comes from the left part
/// when it has one, else from the right part.
pub proof fn lemma_first_focused_append(s0: Seq<ManagedWindow>, s1: Seq<ManagedWindow>)
    ensures
        spec_first_focused(s0 + s1) == (if spec_first_focused(s0) is Some {
            spec_first_focused(s0)
        } else {
            spec_first_focused(s1)
        }),
    decreases s0.len(),
{
    if s0.len() == 0 {
        assert(s0 + s1 =~= s1);
    } else {
        assert((s0 + s1).drop_first() =~= s0.drop_first() + s1);
        lemma_first_focused_append(s0.drop_first(), s1);
    }
}

/// A well-formed child's view is a well-formed subtree.
pub proof fn lemma_child_wf_view(c: TiledChild)
    requires
        child_wf(c),
    ensures
        child_view(c).subtree_wf(),
    decreases c,
{
    match c {
        TiledChild::Window(_) => {},
        TiledChild::Tiled(t) => {
            lemma_child_wf_view(t.children@[0]);
            lemma_child_wf_view(t.children@[1]);
        },
    }
}

/// A well-formed root's view is a well-formed root.
pub proof fn lemma_wf_view(t: Tiled)
    requires
        t.wf(),
    ensures
        tiled_view(t).root_wf(),
{
    if t.children@.len() >= 1 {
        lemma_child_wf_view(t.children@[0]);
    }
    if t.children@.len() >= 2 {
        lemma_child_wf_view(t.children@[1]);
    }
}

impl Tiled {
    /// Well-formedness of a workspace root: at most two well-formed
    /// children, and a sole child is a window leaf, never an
    /// uncollapsed split.
    pub open spec fn wf(self) -> bool {
        &&& self.children@.len() <= 2
        &&& (forall|i: int|
            0 <= i < self.children@.len() ==> child_wf(#[trigger] self.children@[i]))
        &&& (self.children@.len() == 1 ==> self.children@[0] is Window)
    }

    /// Builds an empty split.
    pub fn new_0(direction: TiledDirection) -> (r: Tiled)
        ensures
            r@ == (TileView::Split {
                kids: Seq::<TileView>::empty(),
                direction,
                offset: 0i16,
                dirty: true,
            }),
            r@.root_wf(),
            r@.offsets_zero(),
            r.wf(),
    {
        let r = Tiled { children: Vec::new(), direction, offset: 0, dirty: true };
        assert(r@ =~= TileView::Split {
            kids: Seq::<TileView>::empty(),
            direction,
            offset: 0i16,
            dirty: true,
        });
        r
    }

    /// Builds a split holding one window.
    pub fn new_1(window: ManagedWindow, direction: TiledDirection) -> (r: Tiled)
        ensures
            r@ == (TileView::Split {
                kids: seq![TileView::Leaf(window)],
                direction,
                offset: 0i16,
                dirty: true,
            }),
    {
        let mut vec: Vec<TiledChild> = Vec::new();
        vec.push(TiledChild::Window(window));
        let r = Tiled { children: vec, direction, offset: 0, dirty: true };
        assert(r@ =~= TileView::Split {
            kids: seq![TileView::Leaf(window)],
            direction,
            offset: 0i16,
            dirty: true,
        });
        r
    }

    /// Builds a split holding two windows, first and second.
    pub fn new_2(window1: ManagedWindow, window2: ManagedWindow, direction: TiledDirection) -> (r:
        Tiled)
        ensures
            r@ == (TileView::Split {
                kids: seq![TileView::Leaf(window1), TileView::Leaf(window2)],
                direction,
                offset: 0i16,
                dirty: true,
            }),
    {
        let mut vec: Vec<TiledChild> = Vec::new();
        vec.push(TiledChild::Window(window1));
        vec.push(TiledChild::Window(window2));
        let r = Tiled { children: vec, direction, offset: 0, dirty: true };
        assert(r@ =~= TileView::Split {
            kids: seq![TileView::Leaf(window1), TileView::Leaf(window2)],
            direction,
            offset: 0i16,
            dirty: true,
        });
        r
    }

    /// Marks this split as needing re-layout.
    pub fn mark_dirty(&mut self)
        ensures
            final(self).children == old(self).children,
            final(self).direction == old(self).direction,
            final(self).offset == old(self).offset,
            final(self).dirty == true,
            final(self)@ == (match old(self)@ {
                TileView::Split { kids, direction, offset, dirty } => TileView::Split {
                    kids,
                    direction,
                    offset,
                    dirty: true,
                },
                v => v,
            }),
    {
        self.dirty = true;
        assert(self@ =~= match old(self)@ {
            TileView::Split { kids, direction, offset, dirty } => TileView::Split {
                kids,
                direction,
                offset,
                dirty: true,
            },
            v => v,
        });
    }

    /// Returns whether this split needs re-layout.
    pub fn is_dirty(&self) -> (r: bool)
        ensures
            r == self@->Split_dirty,
    {
        self.dirty
    }

    /// Swaps the two children, or does nothing when there are fewer
    /// than two; either way the split is marked dirty.
    pub fn swap(&mut self)
        requires
            old(self).wf(),
        ensures
            final(self)@ == (match old(self)@ {
                TileView::Split { kids, direction, offset, dirty } => TileView::Split {
                    kids: if kids.len() == 2 {
                        seq![kids[1], kids[0]]
                    } else {
                        kids
                    },
                    direction,
                    offset,
                    dirty: true,
                },
                v => v,
            }),
            final(self).wf(),
    {
        if self.children.len() == 2 {
            let c = self.children.remove(0);
            self.children.push(c);
            assert(self.children@ =~= seq![
                old(self).children@[1],
                old(self).children@[0],
            ]);
            assert(child_wf(self.children@[0]) && child_wf(self.children@[1]));
        }
        self.mark_dirty();
        assert(self@ =~= match old(self)@ {
            TileView::Split { kids, direction, offset, dirty } => TileView::Split {
                kids: if kids.len() == 2 {
                    seq![kids[1], kids[0]]
                } else {
                    kids
                },
                direction,
                offset,
                dirty: true,
            },
            v => v,
        });
    }
}

impl TiledChild {
    /// Sets the focus flag of every leaf in this subtree from whether
    /// it answers to the handle; reports whether any did.
    fn set_focused_rec(self, wid: u32) -> (r: (TiledChild, bool))
        requires
            child_wf(self),
        ensures
            child_wf(r.0),
            self is Window ==> r.0 is Window,
            child_view(r.0) == child_view(self).refocus(wid),
            r.1 == seq_has_wid(child_view(self).windows(), wid),
        decreases self,
    {
        match self {
            TiledChild::Window(mut w) => {
                let ghost w0 = w;
                let m = w.window.wid == wid || w.wrapper.wid == wid;
                w.focused = m;
                proof {
                    reveal_with_fuel(spec_find, 2);
                    assert(self == TiledChild::Window(w0));
                    let s = child_view(TiledChild::Window(w0)).windows();
                    assert(s =~= seq![w0]);
                    assert(s.drop_first() =~= Seq::<ManagedWindow>::empty());
                    assert(seq_has_wid(s, wid) == leaf_matches(w0, wid));
                }
                (TiledChild::Window(w), m)
            },
            TiledChild::Tiled(t) => {
                let ghost me = TiledChild::Tiled(t);
                let mut t = t;
                let ghost t0 = t;
                let c0 = t.children.remove(0);
                proof {
                    assert(decreases_to!(me => me->Tiled_0.children@[0]));
                }
                let (c0b, f0) = c0.set_focused_rec(wid);
                t.children.insert(0, c0b);
                let c1 = t.children.remove(1);
                proof {
                    assert(c1 == me->Tiled_0.children@[1]);
                    assert(decreases_to!(me => me->Tiled_0.children@[1]));
                }
                let (c1b, f1) = c1.set_focused_rec(wid);
                t.children.insert(1, c1b);
                t.dirty = true;
                proof {
                    assert(t.children@ =~= seq![c0b, c1b]);
                    assert(child_view(TiledChild::Tiled(t)) =~= child_view(me).refocus(wid));
                    lemma_find_append(
                        child_view(t0.children@[0]).windows(),
                        child_view(t0.children@[1]).windows(),
                        wid,
                    );
                }
                (TiledChild::Tiled(t), f0 || f1)
            },
        }
    }

    /// Splits the first focused leaf of this subtree into a pair with
    /// the new window; hands the window back when no leaf here holds
    /// the focus.
    fn try_add_rec(self, window: ManagedWindow, direction: TiledDirection) -> (r: (
        TiledChild,
        Option<ManagedWindow>,
    ))
        requires
            child_wf(self),
        ensures
            child_wf(r.0),
            child_view(r.0) == child_view(self).try_add(window, direction).0,
            (r.1 is None) == child_view(self).try_add(window, direction).1,
            r.1 is Some ==> r.1 == Some(window),
        decreases self,
    {
        match self {
            TiledChild::Window(mut w) => {
                if w.focused {
                    let ghost w0 = w;
                    w.focused = false;
                    let mut nw = window;
                    nw.focused = true;
                    let mut vec: Vec<TiledChild> = Vec::new();
                    vec.push(TiledChild::Window(w));
                    vec.push(TiledChild::Window(nw));
                    let pair = Tiled { children: vec, direction, offset: 0, dirty: true };
                    proof {
                        assert(w == w0.with_focused(false));
                        assert(nw == window.with_focused(true));
                        assert(pair.children@ =~= seq![
                            TiledChild::Window(w0.with_focused(false)),
                            TiledChild::Window(window.with_focused(true)),
                        ]);
                        assert(child_wf(pair.children@[0]) && child_wf(pair.children@[1]));
                        assert(child_view(pair.children@[0]) == TileView::Leaf(
                            w0.with_focused(false),
                        ));
                        assert(child_view(pair.children@[1]) == TileView::Leaf(
                            window.with_focused(true),
                        ));
                        assert(child_view(TiledChild::Tiled(pair)) =~= child_view(
                            TiledChild::Window(w0),
                        ).try_add(window, direction).0);
                    }
                    (TiledChild::Tiled(pair), None)
                } else {
                    (TiledChild::Window(w), Some(window))
                }
            },
            TiledChild::Tiled(t) => {
                let ghost me = TiledChild::Tiled(t);
                let mut t = t;
                let c0 = t.children.remove(0);
                proof {
                    assert(decreases_to!(me => me->Tiled_0.children@[0]));
                }
                let (c0b, rest) = c0.try_add_rec(window, direction);
                t.children.insert(0, c0b);
                match rest {
                    None => {
                        t.dirty = true;
                        proof {
                            assert(t.children@ =~= seq![c0b, me->Tiled_0.children@[1]]);
                            let kids0 = child_view(me)->Split_kids;
                            assert(kids0 =~= seq![
                                child_view(me->Tiled_0.children@[0]),
                                child_view(me->Tiled_0.children@[1]),
                            ]);
                            assert(kids0.update(0, child_view(c0b)) =~= seq![
                                child_view(c0b),
                                child_view(me->Tiled_0.children@[1]),
                            ]);
                            assert(child_view(TiledChild::Tiled(t)) =~= child_view(me).try_add(
                                window,
                                direction,
                            ).0);
                        }
                        (TiledChild::Tiled(t), None)
                    },
                    Some(window) => {
                        let c1 = t.children.remove(1);
                        proof {
                            assert(c1 == me->Tiled_0.children@[1]);
                            assert(decreases_to!(me => me->Tiled_0.children@[1]));
                        }
                        let (c1b, rest2) = c1.try_add_rec(window, direction);
                        t.children.insert(1, c1b);
                        match rest2 {
                            None => {
                                t.dirty = true;
                                proof {
                                    assert(t.children@ =~= seq![c0b, c1b]);
                                    let kids0 = child_view(me)->Split_kids;
                                    assert(kids0 =~= seq![
                                        child_view(me->Tiled_0.children@[0]),
                                        child_view(me->Tiled_0.children@[1]),
                                    ]);
                                    assert(kids0.update(1, child_view(c1b)) =~= seq![
                                        child_view(c0b),
                                        child_view(c1b),
                                    ]);
                                    assert(child_view(TiledChild::Tiled(t)) =~= child_view(
                                        me,
                                    ).try_add(window, direction).0);
                                }
                                (TiledChild::Tiled(t), None)
                            },
                            Some(window) => {
                                proof {
                                    assert(t.children@ =~= seq![c0b, c1b]);
                                    let kids0 = child_view(me)->Split_kids;
                                    assert(kids0 =~= seq![
                                        child_view(me->Tiled_0.children@[0]),
                                        child_view(me->Tiled_0.children@[1]),
                                    ]);
                                    assert(child_view(TiledChild::Tiled(t)) =~= child_view(me));
                                }
                                (TiledChild::Tiled(t), Some(window))
                            },
                        }
                    },
                }
            },
        }
    }

    /// Splits the first leaf of this subtree in document order into a
    /// pair with the new window.
    fn pair_first_rec(self, window: ManagedWindow, direction: TiledDirection) -> (r: TiledChild)
        requires
            child_wf(self),
        ensures
            child_wf(r),
            child_view(r) == child_view(self).pair_first(window, direction),
        decreases self,
    {
        match self {
            TiledChild::Window(mut w) => {
                let ghost w0 = w;
                w.focused = false;
                let mut nw = window;
                nw.focused = true;
                let mut vec: Vec<TiledChild> = Vec::new();
                vec.push(TiledChild::Window(w));
                vec.push(TiledChild::Window(nw));
                let pair = Tiled { children: vec, direction, offset: 0, dirty: true };
                proof {
                    assert(w == w0.with_focused(false));
                    assert(nw == window.with_focused(true));
                    assert(pair.children@ =~= seq![
                        TiledChild::Window(w0.with_focused(false)),
                        TiledChild::Window(window.with_focused(true)),
                    ]);
                    assert(child_wf(pair.children@[0]) && child_wf(pair.children@[1]));
                    assert(child_view(pair.children@[0]) == TileView::Leaf(
                        w0.with_focused(false),
                    ));
                    assert(child_view(pair.children@[1]) == TileView::Leaf(
                        window.with_focused(true),
                    ));
                    assert(child_wf(TiledChild::Tiled(pair)));
                    assert(child_view(TiledChild::Tiled(pair)) =~= child_view(
                        TiledChild::Window(w0),
                    ).pair_first(window, direction));
                }
                TiledChild::Tiled(pair)
            },
            TiledChild::Tiled(t) => {
                let ghost me = TiledChild::Tiled(t);
                let mut t = t;
                let c0 = t.children.remove(0);
                proof {
                    assert(decreases_to!(me => me->Tiled_0.children@[0]));
                }
                let c0b = c0.pair_first_rec(window, direction);
                t.children.insert(0, c0b);
                t.dirty = true;
                proof {
                    assert(t.children@ =~= seq![c0b, me->Tiled_0.children@[1]]);
                    let kids0 = child_view(me)->Split_kids;
                    assert(kids0 =~= seq![
                        child_view(me->Tiled_0.children@[0]),
                        child_view(me->Tiled_0.children@[1]),
                    ]);
                    assert(kids0.update(0, kids0[0].pair_first(window, direction)) =~= seq![
                        child_view(c0b),
                        child_view(me->Tiled_0.children@[1]),
                    ]);
                    assert(child_wf(t.children@[0]) && child_wf(t.children@[1]));
                    assert(child_view(TiledChild::Tiled(t)) =~= child_view(me).pair_first(
                        window,
                        direction,
                    ));
                }
                TiledChild::Tiled(t)
            },
        }
    }

    /// Gives the first leaf of this subtree whose window answers to the
    /// handle a new display name; hands the name back when none does.
    fn rename_rec(self, wid: u32, name: Vec<u8>) -> (r: (TiledChild, Option<Vec<u8>>))
        requires
            child_wf(self),
        ensures
            child_wf(r.0),
            self is Window ==> r.0 is Window,
            child_view(r.0) == child_view(self).rename(wid, name).0,
            (r.1 is None) == child_view(self).rename(wid, name).1,
            r.1 is Some ==> r.1 == Some(name),
        decreases self,
    {
        match self {
            TiledChild::Window(mut w) => {
                if w.window.wid == wid {
                    let ghost w0 = w;
                    w.name = name;
                    proof {
                        assert(w == w0.with_name(name));
                    }
                    (TiledChild::Window(w), None)
                } else {
                    (TiledChild::Window(w), Some(name))
                }
            },
            TiledChild::Tiled(t) => {
                let ghost me = TiledChild::Tiled(t);
                let mut t = t;
                let c0 = t.children.remove(0);
                proof {
                    assert(decreases_to!(me => me->Tiled_0.children@[0]));
                }
                let (c0b, rest) = c0.rename_rec(wid, name);
                t.children.insert(0, c0b);
                match rest {
                    None => {
                        proof {
                            assert(t.children@ =~= seq![c0b, me->Tiled_0.children@[1]]);
                            let kids0 = child_view(me)->Split_kids;
                            assert(kids0 =~= seq![
                                child_view(me->Tiled_0.children@[0]),
                                child_view(me->Tiled_0.children@[1]),
                            ]);
                            assert(kids0.update(0, child_view(c0b)) =~= seq![
                                child_view(c0b),
                                child_view(me->Tiled_0.children@[1]),
                            ]);
                            assert(child_view(TiledChild::Tiled(t)) =~= child_view(me).rename(
                                wid,
                                name,
                            ).0);
                        }
                        (TiledChild::Tiled(t), None)
                    },
                    Some(name) => {
                        let c1 = t.children.remove(1);
                        proof {
                            assert(c1 == me->Tiled_0.children@[1]);
                            assert(decreases_to!(me => me->Tiled_0.children@[1]));
                        }
                        let (c1b, rest2) = c1.rename_rec(wid, name);
                        t.children.insert(1, c1b);
                        proof {
                            assert(t.children@ =~= seq![c0b, c1b]);
                            let kids0 = child_view(me)->Split_kids;
                            assert(kids0 =~= seq![
                                child_view(me->Tiled_0.children@[0]),
                                child_view(me->Tiled_0.children@[1]),
                            ]);
                            assert(kids0.update(1, child_view(c1b)) =~= seq![
                                child_view(c0b),
                                child_view(c1b),
                            ]);
                            if rest2 is None {
                                assert(child_view(TiledChild::Tiled(t)) =~= child_view(me).rename(
                                    wid,
                                    name,
                                ).0);
                            } else {
                                assert(child_view(TiledChild::Tiled(t)) =~= child_view(me));
                            }
                        }
                        (TiledChild::Tiled(t), rest2)
                    },
                }
            },
        }
    }

    /// Marks the first leaf of this subtree focused, leaving every
    /// other leaf's flag alone.
    fn focus_first_rec(self) -> (r: TiledChild)
        requires
            child_wf(self),
        ensures
            child_wf(r),
            self is Window ==> r is Window,
            child_view(r) == child_view(self).focus_first(),
        decreases self,
    {
        match self {
            TiledChild::Window(mut w) => {
                w.focused = true;
                (TiledChild::Window(w))
            },
            TiledChild::Tiled(t) => {
                let ghost me = TiledChild::Tiled(t);
                let mut t = t;
                let c0 = t.children.remove(0);
                proof {
                    assert(decreases_to!(me => me->Tiled_0.children@[0]));
                }
                let c0b = c0.focus_first_rec();
                t.children.insert(0, c0b);
                t.dirty = true;
                proof {
                    assert(t.children@ =~= seq![c0b, me->Tiled_0.children@[1]]);
                    let kids0 = child_view(me)->Split_kids;
                    assert(kids0 =~= seq![
                        child_view(me->Tiled_0.children@[0]),
                        child_view(me->Tiled_0.children@[1]),
                    ]);
                    assert(kids0.update(0, kids0[0].focus_first()) =~= seq![
                        child_view(c0b),
                        child_view(me->Tiled_0.children@[1]),
                    ]);
                    assert(child_view(TiledChild::Tiled(t)) =~= child_view(me).focus_first());
                }
                TiledChild::Tiled(t)
            },
        }
    }
}

/// A well-formed subtree holds at least one window.
pub proof fn lemma_child_windows_nonempty(c: TiledChild)
    requires
        child_wf(c),
    ensures
        child_view(c).windows().len() >= 1,
    decreases c,
{
    match c {
        TiledChild::Window(_) => {},
        TiledChild::Tiled(t) => {
            lemma_child_windows_nonempty(t.children@[0]);
            lemma_child_windows_nonempty(t.children@[1]);
        },
    }
}

impl TiledChild {
    /// The first focused window of this subtree, in document order.
    fn get_focused_rec(&self) -> (r: Option<&ManagedWindow>)
        requires
            child_wf(*self),
        ensures
            (match r {
                Some(w) => spec_first_focused(child_view(*self).windows()) == Some(*w),
                None => spec_first_focused(child_view(*self).windows()) is None,
            }),
        decreases self,
    {
        match self {
            TiledChild::Window(w) => {
                proof {
                    reveal_with_fuel(spec_first_focused, 2);
                    assert(child_view(*self).windows() =~= seq![*w]);
                    assert(child_view(*self).windows().drop_first() =~= Seq::<
                        ManagedWindow,
                    >::empty());
                }
                if w.focused {
                    Some(w)
                } else {
                    None
                }
            },
            TiledChild::Tiled(t) => {
                proof {
                    assert(decreases_to!(*self => self->Tiled_0.children@[0]));
                    assert(decreases_to!(*self => self->Tiled_0.children@[1]));
                    lemma_first_focused_append(
                        child_view(t.children@[0]).windows(),
                        child_view(t.children@[1]).windows(),
                    );
                }
                let r0 = t.children[0].get_focused_rec();
                match r0 {
                    Some(w) => Some(w),
                    None => t.children[1].get_focused_rec(),
                }
            },
        }
    }

    /// The first window of this subtree that answers to the handle.
    fn get_window_rec(&self, wid: u32) -> (r: Option<&ManagedWindow>)
        requires
            child_wf(*self),
        ensures
            (match r {
                Some(w) => spec_find(child_view(*self).windows(), wid) == Some(*w),
                None => spec_find(child_view(*self).windows(), wid) is None,
            }),
        decreases self,
    {
        match self {
            TiledChild::Window(w) => {
                proof {
                    reveal_with_fuel(spec_find, 2);
                    assert(child_view(*self).windows() =~= seq![*w]);
                    assert(child_view(*self).windows().drop_first() =~= Seq::<
                        ManagedWindow,
                    >::empty());
                }
                if w.window.wid == wid || w.wrapper.wid == wid {
                    Some(w)
                } else {
                    None
                }
            },
            TiledChild::Tiled(t) => {
                proof {
                    assert(decreases_to!(*self => self->Tiled_0.children@[0]));
                    assert(decreases_to!(*self => self->Tiled_0.children@[1]));
                    lemma_find_append(
                        child_view(t.children@[0]).windows(),
                        child_view(t.children@[1]).windows(),
                        wid,
                    );
                }
                let r0 = t.children[0].get_window_rec(wid);
                match r0 {
                    Some(w) => Some(w),
                    None => t.children[1].get_window_rec(wid),
                }
            },
        }
    }

    /// Extends the direction list with the path to the first focused
    /// leaf of this subtree, the given index first; restores the list
    /// when the subtree holds no focus.
    fn locate_focused_rec(&self, idx: usize, directions: &mut Vec<usize>) -> (found: bool)
        requires
            child_wf(*self),
        ensures
            found == child_view(*self).focused_path().1,
            found ==> final(directions)@ == old(directions)@ + seq![idx] + child_view(
                *self,
            ).focused_path().0,
            !found ==> final(directions)@ == old(directions)@,
        decreases self,
    {
        match self {
            TiledChild::Window(w) => {
                if w.focused {
                    directions.push(idx);
                    proof {
                        assert(directions@ =~= old(directions)@ + seq![idx] + child_view(
                            *self,
                        ).focused_path().0);
                    }
                    true
                } else {
                    false
                }
            },
            TiledChild::Tiled(t) => {
                proof {
                    assert(decreases_to!(*self => self->Tiled_0.children@[0]));
                    assert(decreases_to!(*self => self->Tiled_0.children@[1]));
                }
                directions.push(idx);
                if t.children[0].locate_focused_rec(0, directions) {
                    proof {
                        assert(directions@ =~= old(directions)@ + seq![idx] + child_view(
                            *self,
                        ).focused_path().0);
                    }
                    true
                } else if t.children[1].locate_focused_rec(1, directions) {
                    proof {
                        assert(directions@ =~= old(directions)@ + seq![idx] + child_view(
                            *self,
                        ).focused_path().0);
                    }
                    true
                } else {
                    directions.pop();
                    proof {
                        assert(directions@ =~= old(directions)@);
                    }
                    false
                }
            },
        }
    }
}

impl TiledChild {
    /// Returns whether this child is a single managed window.
    pub fn is_window(&self) -> (r: bool)
        ensures
            r == (*self is Window),
    {
        match self {
            TiledChild::Window(_) => true,
            _ => false,
        }
    }

    /// Returns whether this child is a nested split.
    pub fn is_tiled(&self) -> (r: bool)
        ensures
            r == (*self is Tiled),
    {
        match self {
            TiledChild::Tiled(_) => true,
            _ => false,
        }
    }

    /// Takes the managed window out of a window child.
    pub fn unwrap_window(self) -> (r: ManagedWindow)
        requires
            self is Window,
        ensures
            self == TiledChild::Window(r),
    {
        match self {
            TiledChild::Window(window) => window,
            TiledChild::Tiled(_) => vstd::pervasive::unreached(),
        }
    }

    /// Takes the split out of a split child.
    pub fn unwrap_tiled(self) -> (r: Tiled)
        requires
            self is Tiled,
        ensures
            self == TiledChild::Tiled(r),
    {
        match self {
            TiledChild::Tiled(tiled) => tiled,
            TiledChild::Window(_) => vstd::pervasive::unreached(),
        }
    }

    /// Lays out this subtree in the given rectangle, appending the
    /// resulting configure and repaint commands, and clears the dirty
    /// flags of every split it visits.
    fn tile_rec(
        self,
        x: i16,
        y: i16,
        width: u16,
        height: u16,
        force: bool,
        out: &mut Vec<TileCommand>,
    ) -> (r: TiledChild)
        requires
            child_wf(self),
            child_view(self).offsets_zero(),
            0 <= x,
            0 <= y,
            x + width <= 0x7FFF,
            y + height <= 0x7FFF,
        ensures
            child_wf(r),
            self is Window ==> r is Window,
            child_view(r) == child_view(self).after_tile(force),
            child_view(r).offsets_zero(),
            final(out)@ == old(out)@ + child_view(self).tile_cmds(x, y, width, height, force),
        decreases self,
    {
        match self {
            TiledChild::Window(w) => {
                out.push(
                    TileCommand::ConfigureWrapper { wid: w.wrapper.wid, x, y, width, height },
                );
                let inner_width = if width >= 1 {
                    width - 1
                } else {
                    0
                };
                let inner_height = if height >= 21 {
                    height - 21
                } else {
                    0
                };
                out.push(
                    TileCommand::ConfigureWindow {
                        wid: w.window.wid,
                        x: 0,
                        y: 20,
                        width: inner_width,
                        height: inner_height,
                    },
                );
                out.push(
                    TileCommand::Expose {
                        wid: w.wrapper.wid,
                        width: w.wrapper.width,
                        height: w.wrapper.height,
                    },
                );
                proof {
                    assert(out@ =~= old(out)@ + leaf_cmds(w, x, y, width, height));
                }
                TiledChild::Window(w)
            },
            TiledChild::Tiled(t) => {
                let ghost me = TiledChild::Tiled(t);
                let mut t = t;
                if !t.dirty && !force {
                    proof {
                        assert(out@ =~= old(out)@ + child_view(me).tile_cmds(
                            x,
                            y,
                            width,
                            height,
                            force,
                        ));
                    }
                    return TiledChild::Tiled(t);
                }
                proof {
                    assert(decreases_to!(me => me->Tiled_0.children@[0]));
                    assert(decreases_to!(me => me->Tiled_0.children@[1]));
                }
                let (fx, fy, fw, fh, sx, sy, sw, sh) = match t.direction {
                    TiledDirection::Vertical => {
                        let half = height / 2;
                        let first_h = (half as i16 + t.offset) as u16;
                        let second_y = y + half as i16 + t.offset;
                        let second_h = (half as i16 - t.offset) as u16;
                        (x, y, width, first_h, x, second_y, width, second_h)
                    },
                    TiledDirection::Horizontal => {
                        let half = width / 2;
                        let first_w = (half as i16 + t.offset) as u16;
                        let second_x = x + half as i16 + t.offset;
                        let second_w = (half as i16 - t.offset) as u16;
                        (x, y, first_w, height, second_x, y, second_w, height)
                    },
                };
                let c0 = t.children.remove(0);
                let c0b = c0.tile_rec(fx, fy, fw, fh, force, out);
                t.children.insert(0, c0b);
                let c1 = t.children.remove(1);
                proof {
                    assert(c1 == me->Tiled_0.children@[1]);
                }
                let c1b = c1.tile_rec(sx, sy, sw, sh, force, out);
                t.children.insert(1, c1b);
                t.dirty = false;
                proof {
                    assert(t.children@ =~= seq![c0b, c1b]);
                    assert(child_view(TiledChild::Tiled(t)) =~= child_view(me).after_tile(force));
                    assert(out@ =~= old(out)@ + child_view(me).tile_cmds(
                        x,
                        y,
                        width,
                        height,
                        force,
                    ));
                }
                TiledChild::Tiled(t)
            },
        }
    }
}

impl Tiled {
    /// Lays out the tree in the given rectangle, appending the
    /// configure and repaint commands the pass issues.  A clean tree
    /// with `force` off issues nothing; after a full pass every visited
    /// split is clean.
    pub fn tile(
        &mut self,
        x: i16,
        y: i16,
        width: u16,
        height: u16,
        force: bool,
        out: &mut Vec<TileCommand>,
    )
        requires
            old(self).wf(),
            old(self)@.offsets_zero(),
            0 <= x,
            0 <= y,
            x + width <= 0x7FFF,
            y + height <= 0x7FFF,
        ensures
            final(self).wf(),
            final(self)@ == old(self)@.after_tile(force),
            final(self)@.offsets_zero(),
            final(out)@ == old(out)@ + old(self)@.tile_cmds(x, y, width, height, force),
    {
        if !self.dirty && !force {
            proof {
                assert(out@ =~= old(out)@ + old(self)@.tile_cmds(x, y, width, height, force));
            }
            return ;
        }
        let n = self.children.len();
        if n == 0 {
            proof {
                assert(out@ =~= old(out)@ + old(self)@.tile_cmds(x, y, width, height, force));
            }
            return ;
        }
        if n == 1 {
            let c0 = self.children.remove(0);
            let c0b = c0.tile_rec(x, y, width, height, force, out);
            self.children.insert(0, c0b);
            self.dirty = false;
            proof {
                assert(self.children@ =~= seq![c0b]);
                assert(self@ =~= old(self)@.after_tile(force));
                assert(out@ =~= old(out)@ + old(self)@.tile_cmds(x, y, width, height, force));
            }
            return ;
        }
        let (fx, fy, fw, fh, sx, sy, sw, sh) = match self.direction {
            TiledDirection::Vertical => {
                let half = height / 2;
                let first_h = (half as i16 + self.offset) as u16;
                let second_y = y + half as i16 + self.offset;
                let second_h = (half as i16 - self.offset) as u16;
                (x, y, width, first_h, x, second_y, width, second_h)
            },
            TiledDirection::Horizontal => {
                let half = width / 2;
                let first_w = (half as i16 + self.offset) as u16;
                let second_x = x + half as i16 + self.offset;
                let second_w = (half as i16 - self.offset) as u16;
                (x, y, first_w, height, second_x, y, second_w, height)
            },
        };
        let c0 = self.children.remove(0);
        let c0b = c0.tile_rec(fx, fy, fw, fh, force, out);
        self.children.insert(0, c0b);
        let c1 = self.children.remove(1);
        proof {
            assert(c1 == old(self).children@[1]);
        }
        let c1b = c1.tile_rec(sx, sy, sw, sh, force, out);
        self.children.insert(1, c1b);
        self.dirty = false;
        proof {
            assert(self.children@ =~= seq![c0b, c1b]);
            assert(self@ =~= old(self)@.after_tile(force));
            assert(out@ =~= old(out)@ + old(self)@.tile_cmds(x, y, width, height, force));
        }
    }

    /// Adds a window at the currently focused leaf: the leaf is split
    /// along the given direction into the old window (unfocused) and
    /// the new one (focused).  An empty tree gains the window as its
    /// sole, focused leaf.  When no leaf holds focus though windows
    /// exist, the window is placed at the first leaf as a safety net.
    pub fn add(&mut self, window: ManagedWindow, direction: TiledDirection)
        requires
            old(self).wf(),
        ensures
            final(self).wf(),
            final(self)@ == old(self)@.spec_add(window, direction),
    {
        if self.children.len() == 0 {
            let mut w = window;
            w.focused = true;
            self.children.push(TiledChild::Window(w));
            self.direction = direction;
            self.dirty = true;
            proof {
                assert(self@ =~= old(self)@.spec_add(window, direction));
            }
            return ;
        }
        if self.children.len() == 1 {
            let c = self.children.remove(0);
            match c {
                TiledChild::Window(mut l) => {
                    let ghost l0 = l;
                    if l.focused {
                        l.focused = false;
                        let mut nw = window;
                        nw.focused = true;
                        self.children.push(TiledChild::Window(l));
                        self.children.push(TiledChild::Window(nw));
                        self.direction = direction;
                        self.dirty = true;
                        proof {
                            assert(self.children@ =~= seq![
                                TiledChild::Window(l0.with_focused(false)),
                                TiledChild::Window(window.with_focused(true)),
                            ]);
                            assert(self@ =~= old(self)@.spec_add(window, direction));
                        }
                    } else {
                        self.children.push(TiledChild::Window(l));
                        let mut nw = window;
                        nw.focused = true;
                        self.children.push(TiledChild::Window(nw));
                        self.direction = direction;
                        self.dirty = true;
                        proof {
                            assert(self.children@ =~= seq![
                                TiledChild::Window(l0),
                                TiledChild::Window(window.with_focused(true)),
                            ]);
                            let v0 = old(self)@;
                            assert(v0.try_add(window, direction).1 == false);
                            assert(v0->Split_kids.push(
                                TileView::Leaf(window.with_focused(true)),
                            ) =~= seq![
                                TileView::Leaf(l0),
                                TileView::Leaf(window.with_focused(true)),
                            ]);
                            assert(self@ =~= old(self)@.spec_add(window, direction));
                        }
                    }
                },
                TiledChild::Tiled(t) => {
                    self.children.insert(0, TiledChild::Tiled(t));
                    proof {
                        assert(false);
                    }
                },
            }
            return ;
        }
        let c0 = self.children.remove(0);
        let (c0b, rest) = c0.try_add_rec(window, direction);
        self.children.insert(0, c0b);
        match rest {
            None => {
                self.dirty = true;
                proof {
                    assert(self.children@ =~= seq![c0b, old(self).children@[1]]);
                    let kids0 = old(self)@->Split_kids;
                    assert(kids0 =~= seq![
                        child_view(old(self).children@[0]),
                        child_view(old(self).children@[1]),
                    ]);
                    assert(kids0.update(0, child_view(c0b)) =~= seq![
                        child_view(c0b),
                        child_view(old(self).children@[1]),
                    ]);
                    assert(self@ =~= old(self)@.spec_add(window, direction));
                }
            },
            Some(window) => {
                let c1 = self.children.remove(1);
                let (c1b, rest2) = c1.try_add_rec(window, direction);
                self.children.insert(1, c1b);
                match rest2 {
                    None => {
                        self.dirty = true;
                        proof {
                            assert(self.children@ =~= seq![c0b, c1b]);
                            let kids0 = old(self)@->Split_kids;
                            assert(kids0 =~= seq![
                                child_view(old(self).children@[0]),
                                child_view(old(self).children@[1]),
                            ]);
                            assert(kids0.update(1, child_view(c1b)) =~= seq![
                                child_view(c0b),
                                child_view(c1b),
                            ]);
                            assert(self@ =~= old(self)@.spec_add(window, direction));
                        }
                    },
                    Some(window) => {
                        let c0c = self.children.remove(0);
                        let c0d = c0c.pair_first_rec(window, direction);
                        self.children.insert(0, c0d);
                        self.dirty = true;
                        proof {
                            assert(self.children@ =~= seq![c0d, c1b]);
                            let kids0 = old(self)@->Split_kids;
                            assert(kids0 =~= seq![
                                child_view(old(self).children@[0]),
                                child_view(old(self).children@[1]),
                            ]);
                            assert(kids0.update(0, kids0[0].pair_first(window, direction)) =~= seq![
                                child_view(c0d),
                                child_view(c1b),
                            ]);
                            assert(self@ =~= old(self)@.spec_add(window, direction));
                        }
                    },
                }
            },
        }
    }

    /// Removes the first leaf answering to the handle from this node's
    /// subtree and collapses any nested split left with a single child.
    /// Reports whether a leaf was removed.
    #[verifier::rlimit(60)]
    fn remove_rec(&mut self, wid: u32) -> (removed: bool)
        requires
            old(self).children@.len() <= 2,
            forall|i: int|
                0 <= i < old(self).children@.len() ==> child_wf(#[trigger] old(self).children@[i]),
        ensures
            final(self).children@.len() <= 2,
            forall|i: int|
                0 <= i < final(self).children@.len() ==> child_wf(
                    #[trigger] final(self).children@[i],
                ),
            tiled_view(*final(self)) == tiled_view(*old(self)).remove_node(wid).0,
            removed == tiled_view(*old(self)).remove_node(wid).1,
            removed ==> final(self).children@.len() + 1 >= old(self).children@.len(),
            !removed ==> final(self).children@.len() == old(self).children@.len() && (forall|
                i: int,
            |
                0 <= i < final(self).children@.len() ==> ((#[trigger] final(self).children@[i])
                    is Window <==> old(self).children@[i] is Window)),
        decreases *old(self),
    {
        let ghost kids0 = tiled_view(*old(self))->Split_kids;
        let n = self.children.len();
        if n >= 1 {
            let c0 = self.children.remove(0);
            match c0 {
                TiledChild::Window(w) => {
                    if w.window.wid == wid || w.wrapper.wid == wid {
                        self.dirty = true;
                        proof {
                            assert(kids0[0] == TileView::Leaf(w));
                            if n == 1 {
                                assert(self.children@ =~= Seq::<TiledChild>::empty());
                                assert(kids0.remove(0) =~= Seq::<TileView>::empty());
                            } else {
                                assert(self.children@ =~= seq![old(self).children@[1]]);
                                assert(kids0.remove(0) =~= seq![
                                    child_view(old(self).children@[1]),
                                ]);
                            }
                            assert(tiled_view(*self) =~= tiled_view(*old(self)).remove_node(
                                wid,
                            ).0);
                        }
                        return true;
                    } else {
                        self.children.insert(0, TiledChild::Window(w));
                    }
                },
                TiledChild::Tiled(mut sub) => {
                    let ghost sub0 = old(self).children@[0]->Tiled_0;
                    proof {
                        assert(decreases_to!(*old(self) =>
                            old(self).children@[0]->Tiled_0));
                        assert(kids0[0] == tiled_view(sub0));
                    }
                    let r = sub.remove_rec(wid);
                    let ghost subf = sub;
                    if r {
                        if sub.children.len() == 1 {
                            let k = sub.children.remove(0);
                            proof {
                                assert(tiled_view(subf).collapse() == child_view(k));
                            }
                            self.children.insert(0, k);
                        } else {
                            self.children.insert(0, TiledChild::Tiled(sub));
                            proof {
                                assert(tiled_view(subf).collapse() == tiled_view(subf));
                                assert(child_view(self.children@[0]) == tiled_view(subf));
                            }
                        }
                        self.dirty = true;
                        proof {
                            assert(child_view(self.children@[0]) == tiled_view(
                                sub0,
                            ).remove_node(wid).0.collapse());
                            if n == 1 {
                                assert(kids0.update(0, kids0[0].remove_node(wid).0.collapse())
                                    =~= seq![child_view(self.children@[0])]);
                                assert(self.children@ =~= seq![self.children@[0]]);
                            } else {
                                assert(self.children@ =~= seq![
                                    self.children@[0],
                                    old(self).children@[1],
                                ]);
                                assert(kids0.update(0, kids0[0].remove_node(wid).0.collapse())
                                    =~= seq![
                                    child_view(self.children@[0]),
                                    child_view(old(self).children@[1]),
                                ]);
                            }
                            assert(tiled_view(*self) =~= tiled_view(*old(self)).remove_node(
                                wid,
                            ).0);
                        }
                        return true;
                    } else {
                        self.children.insert(0, TiledChild::Tiled(sub));
                        proof {
                            assert(child_view(self.children@[0]) == child_view(
                                old(self).children@[0],
                            ));
                        }
                    }
                },
            }
        }
        if n >= 2 {
            let ghost c0r = self.children@[0];
            let c1 = self.children.remove(1);
            proof {
                assert(c1 == old(self).children@[1]);
                assert(child_view(c0r) == kids0[0]);
            }
            match c1 {
                TiledChild::Window(w) => {
                    if w.window.wid == wid || w.wrapper.wid == wid {
                        self.dirty = true;
                        proof {
                            assert(kids0[1] == TileView::Leaf(w));
                            assert(self.children@ =~= seq![c0r]);
                            assert(kids0.remove(1) =~= seq![child_view(c0r)]);
                            assert(tiled_view(*self) =~= tiled_view(*old(self)).remove_node(
                                wid,
                            ).0);
                        }
                        return true;
                    } else {
                        self.children.insert(1, TiledChild::Window(w));
                    }
                },
                TiledChild::Tiled(mut sub) => {
                    let ghost sub0 = old(self).children@[1]->Tiled_0;
                    proof {
                        assert(decreases_to!(*old(self) =>
                            old(self).children@[1]->Tiled_0));
                        assert(kids0[1] == tiled_view(sub0));
                    }
                    let r = sub.remove_rec(wid);
                    let ghost subf = sub;
                    if r {
                        if sub.children.len() == 1 {
                            let k = sub.children.remove(0);
                            proof {
                                assert(tiled_view(subf).collapse() == child_view(k));
                            }
                            self.children.insert(1, k);
                        } else {
                            self.children.insert(1, TiledChild::Tiled(sub));
                            proof {
                                assert(tiled_view(subf).collapse() == tiled_view(subf));
                                assert(child_view(self.children@[1]) == tiled_view(subf));
                            }
                        }
                        self.dirty = true;
                        proof {
                            assert(child_view(self.children@[1]) == tiled_view(
                                sub0,
                            ).remove_node(wid).0.collapse());
                            assert(self.children@ =~= seq![c0r, self.children@[1]]);
                            assert(kids0.update(1, kids0[1].remove_node(wid).0.collapse())
                                =~= seq![
                                child_view(c0r),
                                child_view(self.children@[1]),
                            ]);
                            assert(tiled_view(*self) =~= tiled_view(*old(self)).remove_node(
                                wid,
                            ).0);
                        }
                        return true;
                    } else {
                        self.children.insert(1, TiledChild::Tiled(sub));
                        proof {
                            assert(child_view(self.children@[1]) == child_view(
                                old(self).children@[1],
                            ));
                        }
                    }
                },
            }
        }
        proof {
            assert(self.children@.len() == old(self).children@.len());
            if n >= 1 {
                assert(child_view(self.children@[0]) == child_view(old(self).children@[0]));
            }
            if n >= 2 {
                assert(child_view(self.children@[1]) == child_view(old(self).children@[1]));
            }
            assert(tiled_view(*self) =~= tiled_view(*old(self)));
        }
        false
    }

    /// Removes the window answering to the handle.  A root left holding
    /// a sole nested split adopts that split's children and direction,
    /// and if the removal took the focus away while windows remain, the
    /// first leaf in document order becomes focused.  Returns whether a
    /// window was removed.
    pub fn remove(&mut self, wid: u32) -> (removed: bool)
        requires
            old(self).wf(),
        ensures
            final(self).wf(),
            final(self)@ == old(self)@.spec_remove(wid).0,
            removed == old(self)@.spec_remove(wid).1,
    {
        let r = self.remove_rec(wid);
        if !r {
            return false;
        }
        if self.children.len() == 1 {
            let c = self.children.remove(0);
            match c {
                TiledChild::Tiled(sub) => {
                    self.children = sub.children;
                    self.direction = sub.direction;
                    self.offset = sub.offset;
                    self.dirty = true;
                },
                TiledChild::Window(w) => {
                    self.children.insert(0, TiledChild::Window(w));
                },
            }
        }
        let ghost spliced = old(self)@.remove_node(wid).0.root_splice();
        proof {
            assert(self@ =~= spliced);
            if self.children@.len() >= 1 {
                lemma_child_windows_nonempty(self.children@[0]);
            }
        }
        let focused_exists = self.get_focused().is_some();
        if self.children.len() > 0 && !focused_exists {
            self.set_first_focused();
        }
        true
    }

    /// The currently focused window, or nothing when no leaf has the
    /// focus.
    pub fn get_focused(&self) -> (r: Option<&ManagedWindow>)
        requires
            self.wf(),
        ensures
            (match r {
                Some(w) => spec_first_focused(self@.windows()) == Some(*w),
                None => spec_first_focused(self@.windows()) is None,
            }),
    {
        let n = self.children.len();
        if n == 0 {
            return None;
        }
        proof {
            if n >= 2 {
                lemma_first_focused_append(
                    child_view(self.children@[0]).windows(),
                    child_view(self.children@[1]).windows(),
                );
            }
        }
        let r0 = self.children[0].get_focused_rec();
        match r0 {
            Some(w) => Some(w),
            None => {
                if n >= 2 {
                    self.children[1].get_focused_rec()
                } else {
                    None
                }
            },
        }
    }

    /// The window answering to the handle, or nothing when none does.
    pub fn get_window(&self, wid: u32) -> (r: Option<&ManagedWindow>)
        requires
            self.wf(),
        ensures
            (match r {
                Some(w) => spec_find(self@.windows(), wid) == Some(*w),
                None => spec_find(self@.windows(), wid) is None,
            }),
    {
        let n = self.children.len();
        if n == 0 {
            return None;
        }
        proof {
            if n >= 2 {
                lemma_find_append(
                    child_view(self.children@[0]).windows(),
                    child_view(self.children@[1]).windows(),
                    wid,
                );
            }
        }
        let r0 = self.children[0].get_window_rec(wid);
        match r0 {
            Some(w) => Some(w),
            None => {
                if n >= 2 {
                    self.children[1].get_window_rec(wid)
                } else {
                    None
                }
            },
        }
    }

    /// Extends the direction list with the child indices that lead to
    /// the currently focused leaf; the list is left unchanged when no
    /// leaf is focused.
    pub fn locate_focused(&self, directions: &mut Vec<usize>) -> (found: bool)
        requires
            self.wf(),
        ensures
            found == self@.focused_path().1,
            found ==> final(directions)@ == old(directions)@ + self@.focused_path().0,
            !found ==> final(directions)@ == old(directions)@,
    {
        let n = self.children.len();
        if n == 0 {
            return false;
        }
        if self.children[0].locate_focused_rec(0, directions) {
            proof {
                assert(directions@ =~= old(directions)@ + self@.focused_path().0);
            }
            return true;
        }
        if n >= 2 {
            if self.children[1].locate_focused_rec(1, directions) {
                proof {
                    assert(directions@ =~= old(directions)@ + self@.focused_path().0);
                }
                return true;
            }
        }
        false
    }

    /// Makes every leaf answering to the handle focused and unfocuses
    /// all others; the whole tree is marked dirty because decoration
    /// repaint depends on focus.  Reports whether any leaf matched.
    pub fn set_focused(&mut self, wid: u32) -> (found: bool)
        requires
            old(self).wf(),
        ensures
            final(self).wf(),
            final(self)@ == old(self)@.refocus(wid),
            found == seq_has_wid(old(self)@.windows(), wid),
    {
        let mut found = false;
        let n = self.children.len();
        if n >= 1 {
            let c = self.children.remove(0);
            let (c2, f) = c.set_focused_rec(wid);
            self.children.insert(0, c2);
            if f {
                found = true;
            }
        }
        if n >= 2 {
            let c = self.children.remove(1);
            let (c2, f) = c.set_focused_rec(wid);
            self.children.insert(1, c2);
            if f {
                found = true;
            }
        }
        self.dirty = true;
        proof {
            if n == 0 {
                assert(self@ =~= old(self)@.refocus(wid));
            } else if n == 1 {
                assert(self.children@ =~= seq![self.children@[0]]);
                assert(self@ =~= old(self)@.refocus(wid));
            } else {
                assert(self@ =~= old(self)@.refocus(wid));
                lemma_find_append(
                    child_view(old(self).children@[0]).windows(),
                    child_view(old(self).children@[1]).windows(),
                    wid,
                );
            }
        }
        found
    }

    /// Gives the window answering to the handle a new display name and
    /// returns nothing; when no window answers, the tree is unchanged
    /// and the name is handed back.
    pub fn set_window_name(&mut self, wid: u32, name: Vec<u8>) -> (r: Option<Vec<u8>>)
        requires
            old(self).wf(),
        ensures
            final(self).wf(),
            final(self)@ == old(self)@.rename(wid, name).0,
            (r is None) == old(self)@.rename(wid, name).1,
            r is Some ==> r == Some(name) && final(self)@ == old(self)@,
    {
        let n = self.children.len();
        if n == 0 {
            return Some(name);
        }
        let c0 = self.children.remove(0);
        let (c0b, rest) = c0.rename_rec(wid, name);
        self.children.insert(0, c0b);
        match rest {
            None => {
                proof {
                    let kids0 = old(self)@->Split_kids;
                    if n == 1 {
                        assert(self.children@ =~= seq![c0b]);
                        assert(kids0.update(0, child_view(c0b)) =~= seq![child_view(c0b)]);
                    } else {
                        assert(self.children@ =~= seq![c0b, old(self).children@[1]]);
                        assert(kids0.update(0, child_view(c0b)) =~= seq![
                            child_view(c0b),
                            child_view(old(self).children@[1]),
                        ]);
                    }
                    assert(self@ =~= old(self)@.rename(wid, name).0);
                }
                None
            },
            Some(name) => {
                if n >= 2 {
                    let c1 = self.children.remove(1);
                    let (c1b, rest2) = c1.rename_rec(wid, name);
                    self.children.insert(1, c1b);
                    proof {
                        assert(self.children@ =~= seq![c0b, c1b]);
                        let kids0 = old(self)@->Split_kids;
                        assert(kids0 =~= seq![
                            child_view(old(self).children@[0]),
                            child_view(old(self).children@[1]),
                        ]);
                        assert(kids0.update(1, child_view(c1b)) =~= seq![
                            child_view(c0b),
                            child_view(c1b),
                        ]);
                        if rest2 is None {
                            assert(self@ =~= old(self)@.rename(wid, name).0);
                        } else {
                            assert(self@ =~= old(self)@);
                        }
                    }
                    rest2
                } else {
                    proof {
                        assert(self.children@ =~= seq![c0b]);
                        assert(self@ =~= old(self)@);
                    }
                    Some(name)
                }
            },
        }
    }

    /// Marks the first leaf in document order focused.
    pub fn set_first_focused(&mut self)
        requires
            old(self).wf(),
            old(self).children@.len() >= 1,
        ensures
            final(self).wf(),
            final(self)@ == old(self)@.focus_first(),
    {
        let c = self.children.remove(0);
        let c2 = c.focus_first_rec();
        self.children.insert(0, c2);
        self.dirty = true;
        proof {
            let kids0 = old(self)@->Split_kids;
            if old(self).children@.len() == 1 {
                assert(self.children@ =~= seq![c2]);
                assert(kids0.update(0, kids0[0].focus_first()) =~= seq![child_view(c2)]);
            } else {
                assert(self.children@ =~= seq![c2, old(self).children@[1]]);
                assert(kids0.update(0, kids0[0].focus_first()) =~= seq![
                    child_view(c2),
                    child_view(old(self).children@[1]),
                ]);
            }
            assert(self@ =~= old(self)@.focus_first());
        }
    }
}

/// Counting focus over a one-leaf sequence.
proof fn lemma_count_focused_single(w: ManagedWindow)
    ensures
        count_focused(seq![w]) == (if w.focused {
            1nat
        } else {
            0nat
        }),
{
    reveal_with_fuel(count_focused, 2);
    assert(seq![w].drop_first() =~= Seq::<ManagedWindow>::empty());
}

/// Counting matches over a one-leaf sequence.
proof fn lemma_count_matching_single(w: ManagedWindow, wid: u32)
    ensures
        count_matching(seq![w], wid) == (if leaf_matches(w, wid) {
            1nat
        } else {
            0nat
        }),
{
    reveal_with_fuel(count_matching, 2);
    assert(seq![w].drop_first() =~= Seq::<ManagedWindow>::empty());
}

/// A sequence has no focused leaf exactly when its focus count is zero.
pub proof fn lemma_no_first_focused_iff_count_zero(s: Seq<ManagedWindow>)
    ensures
        (spec_first_focused(s) is None) == (count_focused(s) == 0),
    decreases s.len(),
{
    if s.len() > 0 {
        lemma_no_first_focused_iff_count_zero(s.drop_first());
    }
}

/// A well-formed subtree shows at least one window.
pub proof fn lemma_windows_nonempty(v: TileView)
    requires
        v.subtree_wf(),
    ensures
        v.windows().len() >= 1,
    decreases v,
{
    match v {
        TileView::Leaf(_) => {},
        TileView::Split { kids, .. } => {
            lemma_windows_nonempty(kids[0]);
            lemma_windows_nonempty(kids[1]);
        },
    }
}

/// Adding at the focused leaf succeeds exactly when the subtree holds
/// a focused leaf, and then neither gains nor loses focus overall: the
/// old holder is unfocused and the new window focused.
pub proof fn lemma_try_add_count(v: TileView, w: ManagedWindow, d: TiledDirection)
    requires
        v.subtree_wf(),
    ensures
        v.try_add(w, d).1 == (count_focused(v.windows()) > 0),
        v.try_add(w, d).1 ==> count_focused(v.try_add(w, d).0.windows()) == count_focused(
            v.windows(),
        ),
    decreases v,
{
    reveal_with_fuel(TileView::windows, 3);
    reveal_with_fuel(TileView::subtree_wf, 2);
    match v {
        TileView::Leaf(l) => {
            lemma_count_focused_single(l);
            if l.focused {
                let r = v.try_add(w, d).0;
                assert(r.windows() =~= seq![l.with_focused(false)] + seq![w.with_focused(true)]);
                lemma_count_focused_append(
                    seq![l.with_focused(false)],
                    seq![w.with_focused(true)],
                );
                lemma_count_focused_single(l.with_focused(false));
                lemma_count_focused_single(w.with_focused(true));
            }
        },
        TileView::Split { kids, direction, offset, dirty } => {
            lemma_try_add_count(kids[0], w, d);
            lemma_try_add_count(kids[1], w, d);
            lemma_count_focused_append(kids[0].windows(), kids[1].windows());
            let (c0, a0) = kids[0].try_add(w, d);
            if a0 {
                let r = v.try_add(w, d).0;
                assert(r.windows() =~= c0.windows() + kids[1].windows());
                lemma_count_focused_append(c0.windows(), kids[1].windows());
            } else {
                let (c1, a1) = kids[1].try_add(w, d);
                if a1 {
                    let r = v.try_add(w, d).0;
                    assert(r.windows() =~= kids[0].windows() + c1.windows());
                    lemma_count_focused_append(kids[0].windows(), c1.windows());
                }
            }
        },
    }
}

/// Pairing the first leaf of a focus-free subtree with a new focused
/// window leaves exactly one focused leaf.
pub proof fn lemma_pair_first_count(v: TileView, w: ManagedWindow, d: TiledDirection)
    requires
        v.subtree_wf(),
        count_focused(v.windows()) == 0,
    ensures
        count_focused(v.pair_first(w, d).windows()) == 1,
        v.pair_first(w, d).subtree_wf(),
    decreases v,
{
    reveal_with_fuel(TileView::windows, 3);
    reveal_with_fuel(TileView::subtree_wf, 2);
    match v {
        TileView::Leaf(l) => {
            let r = v.pair_first(w, d);
            assert(r.windows() =~= seq![l.with_focused(false)] + seq![w.with_focused(true)]);
            lemma_count_focused_append(seq![l.with_focused(false)], seq![w.with_focused(true)]);
            lemma_count_focused_single(l.with_focused(false));
            lemma_count_focused_single(w.with_focused(true));
        },
        TileView::Split { kids, direction, offset, dirty } => {
            lemma_count_focused_append(kids[0].windows(), kids[1].windows());
            lemma_pair_first_count(kids[0], w, d);
            let r = v.pair_first(w, d);
            assert(r.windows() =~= kids[0].pair_first(w, d).windows() + kids[1].windows());
            lemma_count_focused_append(kids[0].pair_first(w, d).windows(), kids[1].windows());
            assert(forall|i: int|
                0 <= i < r->Split_kids.len() ==> (#[trigger] r->Split_kids[i]).subtree_wf());
        },
    }
}

/// After adding a window to a workspace tree that upholds the focus
/// invariant, exactly one managed window is focused.
pub proof fn lemma_add_keeps_one_focused(v: TileView, w: ManagedWindow, d: TiledDirection)
    requires
        v.root_wf(),
        count_focused(v.windows()) <= 1,
    ensures
        count_focused(v.spec_add(w, d).windows()) == 1,
{
    reveal_with_fuel(TileView::windows, 3);
    reveal_with_fuel(TileView::subtree_wf, 2);
    let kids = v->Split_kids;
    let r = v.spec_add(w, d);
    if kids.len() == 0 {
        assert(r.windows() =~= seq![w.with_focused(true)]);
        lemma_count_focused_single(w.with_focused(true));
    } else if kids.len() == 1 && kids[0] is Leaf && kids[0]->0.focused {
        let l = kids[0]->0;
        assert(r.windows() =~= seq![l.with_focused(false)] + seq![w.with_focused(true)]);
        lemma_count_focused_append(seq![l.with_focused(false)], seq![w.with_focused(true)]);
        lemma_count_focused_single(l.with_focused(false));
        lemma_count_focused_single(w.with_focused(true));
    } else if kids.len() == 1 {
        let l = kids[0]->0;
        lemma_count_focused_single(l);
        assert(v.windows() =~= seq![l]);
        assert(count_focused(v.windows()) == 0);
        lemma_try_add_count(kids[0], w, d);
        assert(!v.try_add(w, d).1);
        assert(r.windows() =~= seq![l] + seq![w.with_focused(true)]);
        lemma_count_focused_append(seq![l], seq![w.with_focused(true)]);
        lemma_count_focused_single(w.with_focused(true));
    } else {
        lemma_try_add_count(kids[0], w, d);
        lemma_try_add_count(kids[1], w, d);
        lemma_count_focused_append(kids[0].windows(), kids[1].windows());
        let (c0, a0) = kids[0].try_add(w, d);
        let (c1, a1) = kids[1].try_add(w, d);
        if a0 {
            assert(v.try_add(w, d).0.windows() =~= c0.windows() + kids[1].windows());
            lemma_count_focused_append(c0.windows(), kids[1].windows());
            assert(count_focused(v.windows()) > 0);
        } else if a1 {
            assert(v.try_add(w, d).0.windows() =~= kids[0].windows() + c1.windows());
            lemma_count_focused_append(kids[0].windows(), c1.windows());
            assert(count_focused(v.windows()) > 0);
        } else {
            assert(count_focused(kids[0].windows()) == 0);
            assert(count_focused(kids[1].windows()) == 0);
            lemma_pair_first_count(kids[0], w, d);
            assert(r.windows() =~= kids[0].pair_first(w, d).windows() + kids[1].windows());
            lemma_count_focused_append(kids[0].pair_first(w, d).windows(), kids[1].windows());
        }
    }
}

/// Removal takes exactly one window out and leaves every other leaf's
/// focus flag alone: the focus count drops by at most one.
pub proof fn lemma_remove_node_count(v: TileView, wid: u32)
    requires
        v.subtree_wf(),
    ensures
        !v.remove_node(wid).1 ==> v.remove_node(wid).0 == v,
        v.remove_node(wid).1 ==> {
            let r = v.remove_node(wid).0;
            &&& r is Split
            &&& (forall|i: int|
                0 <= i < r->Split_kids.len() ==> (#[trigger] r->Split_kids[i]).subtree_wf())
            &&& r->Split_kids.len() + 1 == v->Split_kids.len() || r->Split_kids.len()
                == v->Split_kids.len()
            &&& r.windows().len() + 1 == v.windows().len()
            &&& count_focused(r.windows()) <= count_focused(v.windows()) <= count_focused(
                r.windows(),
            ) + 1
        },
    decreases v,
{
    reveal_with_fuel(TileView::windows, 3);
    reveal_with_fuel(TileView::subtree_wf, 2);
    match v {
        TileView::Leaf(_) => {},
        TileView::Split { kids, direction, offset, dirty } => {
            lemma_count_focused_append(kids[0].windows(), kids[1].windows());
            let (r, rem) = v.remove_node(wid);
            if kids[0] is Leaf && leaf_matches(kids[0]->0, wid) {
                let l = kids[0]->0;
                lemma_count_focused_single(l);
                assert(kids.remove(0) =~= seq![kids[1]]);
                assert(r.windows() =~= kids[1].windows());
                assert(v.windows() =~= seq![l] + kids[1].windows());
            } else if kids[0] is Split && kids[0].remove_node(wid).1 {
                lemma_remove_node_count(kids[0], wid);
                let sub = kids[0].remove_node(wid).0;
                let subc = sub.collapse();
                if sub->Split_kids.len() == 1 {
                    assert(subc == sub->Split_kids[0]);
                    assert(sub.windows() =~= subc.windows());
                } else {
                    assert(subc == sub);
                }
                assert(r.windows() =~= subc.windows() + kids[1].windows());
                lemma_count_focused_append(subc.windows(), kids[1].windows());
            } else if kids[1] is Leaf && leaf_matches(kids[1]->0, wid) {
                let l = kids[1]->0;
                lemma_count_focused_single(l);
                assert(kids.remove(1) =~= seq![kids[0]]);
                assert(r.windows() =~= kids[0].windows());
                assert(v.windows() =~= kids[0].windows() + seq![l]);
            } else if kids[1] is Split && kids[1].remove_node(wid).1 {
                lemma_remove_node_count(kids[1], wid);
                let sub = kids[1].remove_node(wid).0;
                let subc = sub.collapse();
                if sub->Split_kids.len() == 1 {
                    assert(subc == sub->Split_kids[0]);
                    assert(sub.windows() =~= subc.windows());
                } else {
                    assert(subc == sub);
                }
                assert(r.windows() =~= kids[0].windows() + subc.windows());
                lemma_count_focused_append(kids[0].windows(), subc.windows());
            }
        },
    }
}

/// Focusing the first leaf only rewrites position zero of the window
/// sequence.
pub proof fn lemma_focus_first_windows(v: TileView)
    requires
        v.windows().len() >= 1,
        v.kids_wf(),
    ensures
        v.focus_first().windows() =~= v.windows().update(
            0,
            v.windows()[0].with_focused(true),
        ),
    decreases v,
{
    reveal_with_fuel(TileView::windows, 3);
    reveal_with_fuel(TileView::subtree_wf, 2);
    match v {
        TileView::Leaf(w) => {
            assert(v.focus_first().windows() =~= seq![w.with_focused(true)]);
        },
        TileView::Split { kids, direction, offset, dirty } => {
            if kids.len() == 1 {
                assert(kids[0].subtree_wf());
                assert(kids[0].kids_wf());
                lemma_focus_first_windows(kids[0]);
                assert(v.focus_first().windows() =~= kids[0].focus_first().windows());
            } else if kids.len() >= 2 {
                assert(kids[0].subtree_wf());
                assert(kids[0].kids_wf());
                lemma_windows_nonempty(kids[0]);
                lemma_focus_first_windows(kids[0]);
                assert(v.focus_first().windows() =~= kids[0].focus_first().windows()
                    + kids[1].windows());
                assert(v.windows() =~= kids[0].windows() + kids[1].windows());
                assert(v.focus_first().windows() =~= v.windows().update(
                    0,
                    v.windows()[0].with_focused(true),
                ));
            }
        },
    }
}

/// Updating position zero to a focused leaf sets the focus count of a
/// focus-free sequence to one.
proof fn lemma_count_update_first_focus(s: Seq<ManagedWindow>)
    requires
        s.len() >= 1,
        count_focused(s) == 0,
    ensures
        count_focused(s.update(0, s[0].with_focused(true))) == 1,
{
    let s2 = s.update(0, s[0].with_focused(true));
    assert(s2.drop_first() =~= s.drop_first());
}

/// After removing a window from a workspace tree that upholds the
/// focus invariant, exactly one managed window is focused as long as
/// any remain.
pub proof fn lemma_remove_keeps_one_focused(v: TileView, wid: u32)
    requires
        v.root_wf(),
        count_focused(v.windows()) == 1 || v.windows().len() == 0,
    ensures
        v.spec_remove(wid).0.windows().len() > 0 ==> count_focused(
            v.spec_remove(wid).0.windows(),
        ) == 1,
{
    let kids = v->Split_kids;
    let (r, rem) = v.remove_node(wid);
    if !rem {
        lemma_root_remove_node_unchanged(v, wid);
    } else {
        lemma_root_remove_node_count(v, wid);
        let spliced = r.root_splice();
        assert(spliced.windows() =~= r.windows());
        if spliced.windows().len() > 0 && spec_first_focused(spliced.windows()) is None {
            lemma_no_first_focused_iff_count_zero(spliced.windows());
            lemma_focus_first_windows(spliced);
            lemma_count_update_first_focus(spliced.windows());
        } else if spliced.windows().len() > 0 {
            lemma_no_first_focused_iff_count_zero(spliced.windows());
        }
    }
}

/// At the root, a removal that found nothing changes nothing.
proof fn lemma_root_remove_node_unchanged(v: TileView, wid: u32)
    requires
        v.root_wf(),
        !v.remove_node(wid).1,
    ensures
        v.remove_node(wid).0 == v,
{
    reveal_with_fuel(TileView::windows, 3);
    reveal_with_fuel(TileView::subtree_wf, 2);
    let kids = v->Split_kids;
    if kids.len() >= 1 && kids[0] is Split {
        lemma_remove_node_count(kids[0], wid);
    }
    if kids.len() >= 2 && kids[1] is Split {
        lemma_remove_node_count(kids[1], wid);
    }
}

/// The count bound of `lemma_remove_node_count`, at the root, together
/// with the splice's window preservation.
proof fn lemma_root_remove_node_count(v: TileView, wid: u32)
    requires
        v.root_wf(),
        v.remove_node(wid).1,
    ensures
        ({
            let r = v.remove_node(wid).0;
            &&& r.windows().len() + 1 == v.windows().len()
            &&& count_focused(r.windows()) <= count_focused(v.windows()) <= count_focused(
                r.windows(),
            ) + 1
            &&& r.root_splice().windows() =~= r.windows()
            &&& r.root_splice().kids_wf()
        }),
{
    reveal_with_fuel(TileView::windows, 3);
    reveal_with_fuel(TileView::subtree_wf, 2);
    let kids = v->Split_kids;
    let (r, rem) = v.remove_node(wid);
    if kids.len() == 1 {
        let l = kids[0]->0;
        lemma_count_focused_single(l);
        assert(v.windows() =~= seq![l]);
        assert(kids.remove(0) =~= Seq::<TileView>::empty());
        assert(r.windows() =~= Seq::<ManagedWindow>::empty());
    } else {
        lemma_count_focused_append(kids[0].windows(), kids[1].windows());
        if kids[0] is Leaf && leaf_matches(kids[0]->0, wid) {
            let l = kids[0]->0;
            lemma_count_focused_single(l);
            assert(kids.remove(0) =~= seq![kids[1]]);
            assert(r.windows() =~= kids[1].windows());
            assert(v.windows() =~= seq![l] + kids[1].windows());
        } else if kids[0] is Split && kids[0].remove_node(wid).1 {
            lemma_remove_node_count(kids[0], wid);
            let sub = kids[0].remove_node(wid).0;
            let subc = sub.collapse();
            if sub->Split_kids.len() == 1 {
                assert(subc == sub->Split_kids[0]);
                assert(sub.windows() =~= subc.windows());
            } else {
                assert(subc == sub);
            }
            assert(r.windows() =~= subc.windows() + kids[1].windows());
            lemma_count_focused_append(subc.windows(), kids[1].windows());
        } else if kids[1] is Leaf && leaf_matches(kids[1]->0, wid) {
            let l = kids[1]->0;
            lemma_count_focused_single(l);
            assert(kids.remove(1) =~= seq![kids[0]]);
            assert(r.windows() =~= kids[0].windows());
            assert(v.windows() =~= kids[0].windows() + seq![l]);
        } else {
            lemma_remove_node_count(kids[1], wid);
            let sub = kids[1].remove_node(wid).0;
            let subc = sub.collapse();
            if sub->Split_kids.len() == 1 {
                assert(subc == sub->Split_kids[0]);
                assert(sub.windows() =~= subc.windows());
            } else {
                assert(subc == sub);
            }
            assert(r.windows() =~= kids[0].windows() + subc.windows());
            lemma_count_focused_append(kids[0].windows(), subc.windows());
        }
    }
    let rk = r->Split_kids;
    if rk.len() == 1 && rk[0] is Split {
        assert(r.root_splice().windows() =~= rk[0].windows());
        assert(r.windows() =~= rk[0].windows());
    } else {
        assert(r.root_splice() == r);
    }
}

/// Refocusing sets the focus count to the number of leaves that answer
/// to the handle.
pub proof fn lemma_refocus_count(v: TileView, wid: u32)
    ensures
        count_focused(v.refocus(wid).windows()) == count_matching(v.windows(), wid),
    decreases v,
{
    reveal_with_fuel(TileView::windows, 3);
    reveal_with_fuel(TileView::subtree_wf, 2);
    match v {
        TileView::Leaf(w) => {
            lemma_count_focused_single(w.with_focused(leaf_matches(w, wid)));
            lemma_count_matching_single(w, wid);
        },
        TileView::Split { kids, .. } => {
            if kids.len() == 1 {
                lemma_refocus_count(kids[0], wid);
                assert(v.refocus(wid).windows() =~= kids[0].refocus(wid).windows());
            } else if kids.len() >= 2 {
                lemma_refocus_count(kids[0], wid);
                lemma_refocus_count(kids[1], wid);
                assert(v.refocus(wid).windows() =~= kids[0].refocus(wid).windows() + kids[1].refocus(
                    wid,
                ).windows());
                lemma_count_focused_append(
                    kids[0].refocus(wid).windows(),
                    kids[1].refocus(wid).windows(),
                );
                lemma_count_matching_append(kids[0].windows(), kids[1].windows(), wid);
            }
        },
    }
}

/// After focusing a handle that exactly one leaf answers to, exactly
/// one managed window is focused.
pub proof fn lemma_set_focused_one_focused(v: TileView, wid: u32)
    requires
        count_matching(v.windows(), wid) == 1,
    ensures
        count_focused(v.refocus(wid).windows()) == 1,
{
    lemma_refocus_count(v, wid);
}

/// A tiling pass only clears dirty flags: the windows and offsets stay
/// as they were.
pub proof fn lemma_after_tile_shape(v: TileView, force: bool)
    ensures
        v.after_tile(force).windows() == v.windows(),
        v.after_tile(force).offsets_zero() == v.offsets_zero(),
    decreases v,
{
    reveal_with_fuel(TileView::windows, 2);
    match v {
        TileView::Leaf(_) => {},
        TileView::Split { kids, direction, offset, dirty } => {
            if (dirty || force) && kids.len() >= 1 {
                lemma_after_tile_shape(kids[0], force);
                if kids.len() >= 2 {
                    lemma_after_tile_shape(kids[1], force);
                }
                assert(v.after_tile(force).windows() =~= v.windows());
            }
        },
    }
}

/// Refocusing leaves the split offsets alone.
pub proof fn lemma_refocus_offsets(v: TileView, wid: u32)
    ensures
        v.refocus(wid).offsets_zero() == v.offsets_zero(),
    decreases v,
{
    reveal_with_fuel(TileView::offsets_zero, 3);
    match v {
        TileView::Leaf(_) => {},
        TileView::Split { kids, .. } => {
            if kids.len() >= 1 {
                lemma_refocus_offsets(kids[0], wid);
            }
            if kids.len() >= 2 {
                lemma_refocus_offsets(kids[1], wid);
            }
        },
    }
}

/// Focusing the first leaf leaves the split offsets alone.
pub proof fn lemma_focus_first_offsets(v: TileView)
    ensures
        v.focus_first().offsets_zero() == v.offsets_zero(),
    decreases v,
{
    reveal_with_fuel(TileView::offsets_zero, 3);
    match v {
        TileView::Leaf(_) => {},
        TileView::Split { kids, .. } => {
            if kids.len() >= 1 {
                lemma_focus_first_offsets(kids[0]);
            }
        },
    }
}

/// Adding a window keeps every split at its even split point, the new
/// pair included.
pub proof fn lemma_add_offsets(v: TileView, w: ManagedWindow, d: TiledDirection)
    requires
        v.offsets_zero(),
    ensures
        v.spec_add(w, d).offsets_zero(),
{
    reveal_with_fuel(TileView::offsets_zero, 3);
    lemma_try_add_offsets(v, w, d);
    lemma_pair_first_offsets(v, w, d);
    if v is Split && v->Split_kids.len() >= 1 {
        lemma_try_add_offsets(v->Split_kids[0], w, d);
        lemma_pair_first_offsets(v->Split_kids[0], w, d);
        if v->Split_kids.len() >= 2 {
            lemma_try_add_offsets(v->Split_kids[1], w, d);
        }
    }
}

/// Splitting the focused leaf keeps every split at its even split
/// point.
proof fn lemma_try_add_offsets(v: TileView, w: ManagedWindow, d: TiledDirection)
    requires
        v.offsets_zero(),
    ensures
        v.try_add(w, d).0.offsets_zero(),
    decreases v,
{
    reveal_with_fuel(TileView::offsets_zero, 3);
    match v {
        TileView::Leaf(_) => {},
        TileView::Split { kids, .. } => {
            if kids.len() >= 1 {
                lemma_try_add_offsets(kids[0], w, d);
                if kids.len() >= 2 {
                    lemma_try_add_offsets(kids[1], w, d);
                }
            }
        },
    }
}

/// Pairing the first leaf keeps every split at its even split point.
proof fn lemma_pair_first_offsets(v: TileView, w: ManagedWindow, d: TiledDirection)
    requires
        v.offsets_zero(),
    ensures
        v.pair_first(w, d).offsets_zero(),
    decreases v,
{
    reveal_with_fuel(TileView::offsets_zero, 3);
    match v {
        TileView::Leaf(_) => {},
        TileView::Split { kids, .. } => {
            if kids.len() >= 1 {
                lemma_pair_first_offsets(kids[0], w, d);
            }
        },
    }
}

/// Removing a window keeps every surviving split at its even split
/// point.
pub proof fn lemma_remove_offsets(v: TileView, wid: u32)
    requires
        v.root_wf(),
        v.offsets_zero(),
    ensures
        v.spec_remove(wid).0.offsets_zero(),
{
    reveal_with_fuel(TileView::offsets_zero, 3);
    let kids = v->Split_kids;
    if kids.len() >= 1 && kids[0] is Split {
        lemma_remove_node_offsets(kids[0], wid);
    }
    if kids.len() >= 2 && kids[1] is Split {
        lemma_remove_node_offsets(kids[1], wid);
    }
    let (r, rem) = v.remove_node(wid);
    if rem {
        if kids[0] is Leaf && leaf_matches(kids[0]->0, wid) {
            assert(r->Split_kids =~= kids.remove(0));
        } else if kids[0] is Split && kids[0].remove_node(wid).1 {
            assert(r->Split_kids =~= kids.update(0, kids[0].remove_node(wid).0.collapse()));
        } else if kids.len() >= 2 && kids[1] is Leaf && leaf_matches(kids[1]->0, wid) {
            assert(r->Split_kids =~= kids.remove(1));
        } else {
            assert(r->Split_kids =~= kids.update(1, kids[1].remove_node(wid).0.collapse()));
        }
        assert(r.offsets_zero());
        let spliced = r.root_splice();
        assert(spliced.offsets_zero());
        lemma_focus_first_offsets(spliced);
    }
}

/// Node-level removal keeps every surviving split at its even split
/// point, collapses included.
proof fn lemma_remove_node_offsets(v: TileView, wid: u32)
    requires
        v.subtree_wf(),
        v.offsets_zero(),
    ensures
        v.remove_node(wid).0.offsets_zero(),
    decreases v,
{
    reveal_with_fuel(TileView::offsets_zero, 3);
    match v {
        TileView::Leaf(_) => {},
        TileView::Split { kids, .. } => {
            if kids[0] is Split {
                lemma_remove_node_offsets(kids[0], wid);
            }
            if kids[1] is Split {
                lemma_remove_node_offsets(kids[1], wid);
            }
            let (r, rem) = v.remove_node(wid);
            if rem {
                if kids[0] is Leaf && leaf_matches(kids[0]->0, wid) {
                    assert(r->Split_kids =~= kids.remove(0));
                } else if kids[0] is Split && kids[0].remove_node(wid).1 {
                    assert(r->Split_kids =~= kids.update(
                        0,
                        kids[0].remove_node(wid).0.collapse(),
                    ));
                } else if kids[1] is Leaf && leaf_matches(kids[1]->0, wid) {
                    assert(r->Split_kids =~= kids.remove(1));
                } else {
                    assert(r->Split_kids =~= kids.update(
                        1,
                        kids[1].remove_node(wid).0.collapse(),
                    ));
                }
            }
        },
    }
}

/// Renaming changes one leaf's display name and nothing else: the
/// offsets, the focus flags and the window count stay as they were.
pub proof fn lemma_rename_shape(v: TileView, wid: u32, name: Vec<u8>)
    ensures
        v.rename(wid, name).0.offsets_zero() == v.offsets_zero(),
        count_focused(v.rename(wid, name).0.windows()) == count_focused(v.windows()),
        v.rename(wid, name).0.windows().len() == v.windows().len(),
    decreases v,
{
    reveal_with_fuel(TileView::offsets_zero, 3);
    reveal_with_fuel(TileView::windows, 2);
    match v {
        TileView::Leaf(w) => {
            lemma_count_focused_single(w);
            lemma_count_focused_single(w.with_name(name));
        },
        TileView::Split { kids, .. } => {
            if kids.len() >= 1 {
                lemma_rename_shape(kids[0], wid, name);
                if kids.len() >= 2 {
                    lemma_rename_shape(kids[1], wid, name);
                    lemma_count_focused_append(kids[0].windows(), kids[1].windows());
                    let (c0, f0) = kids[0].rename(wid, name);
                    if f0 {
                        assert(v.rename(wid, name).0.windows() =~= c0.windows()
                            + kids[1].windows());
                        lemma_count_focused_append(c0.windows(), kids[1].windows());
                    } else {
                        let (c1, f1) = kids[1].rename(wid, name);
                        if f1 {
                            assert(v.rename(wid, name).0.windows() =~= kids[0].windows()
                                + c1.windows());
                            lemma_count_focused_append(kids[0].windows(), c1.windows());
                        }
                    }
                } else {
                    let (c0, f0) = kids[0].rename(wid, name);
                    if f0 {
                        assert(v.rename(wid, name).0.windows() =~= c0.windows());
                    }
                }
            }
        },
    }
}

/// Renaming finds a leaf exactly when some leaf's window answers to
/// the handle, whatever the new name is.
pub proof fn lemma_rename_found(v: TileView, wid: u32, name: Vec<u8>)
    ensures
        v.rename(wid, name).1 == v.has_window(wid),
    decreases v,
{
    match v {
        TileView::Leaf(_) => {},
        TileView::Split { kids, .. } => {
            if kids.len() >= 1 {
                lemma_rename_found(kids[0], wid, name);
            }
            if kids.len() >= 2 {
                lemma_rename_found(kids[1], wid, name);
            }
        },
    }
}

/// Removal from a tree with at most one focused window leaves at most
/// one focused window.
pub proof fn lemma_remove_keeps_focus_bound(v: TileView, wid: u32)
    requires
        v.root_wf(),
        count_focused(v.windows()) <= 1,
    ensures
        count_focused(v.spec_remove(wid).0.windows()) <= 1,
{
    let (r, rem) = v.remove_node(wid);
    if !rem {
        lemma_root_remove_node_unchanged(v, wid);
    } else {
        lemma_root_remove_node_count(v, wid);
        let spliced = r.root_splice();
        assert(spliced.windows() =~= r.windows());
        if spliced.windows().len() > 0 && spec_first_focused(spliced.windows()) is None {
            lemma_no_first_focused_iff_count_zero(spliced.windows());
            lemma_focus_first_windows(spliced);
            lemma_count_update_first_focus(spliced.windows());
        }
    }
}

/// A tiling pass with `force` off leaves the tree in a state where an
/// immediate second pass issues no commands at all.
pub proof fn lemma_tile_idempotent(v: TileView, x: i16, y: i16, width: u16, height: u16)
    requires
        v is Split,
    ensures
        v.after_tile(false).tile_cmds(x, y, width, height, false) == Seq::<TileCommand>::empty(),
{
}

} // verus!
