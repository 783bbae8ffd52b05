//! The window manager: managed windows, workspaces, the decoration
//! painter, and the dispatcher that turns decoded events into tree
//! mutations and outbound requests.
//!
//! Nothing here performs I/O: every handler returns the requests to
//! send as plain values, and wherever a decision needs a server reply
//! first, the handler returns a follow-up the caller performs before
//! handing the answer back in.

use vstd::prelude::*;

use crate::allocator::ResourceAllocator;
use crate::messages::ServerEvent;
use crate::models::GraphicsContext;
use crate::models::Valued;
use crate::models::Rectangle;
use crate::models::Window;
use crate::models::WindowInputType;
use crate::settings::Settings;
use crate::tiling::count_focused;
use crate::tiling::seq_has_wid;
use crate::tiling::spec_find;
use crate::tiling::spec_first_focused;
use crate::tiling::TileCommand;
use crate::tiling::Tiled;
use crate::tiling::TiledDirection;

verus! {

/// A foreign top-level window adopted by the manager, always paired
/// with the manager-owned decorator window that is its new parent.
/// Exactly one managed window per workspace may be focused at a time.
#[derive(Debug)]
pub struct ManagedWindow {
    /// The adopted foreign window.
    pub window: Window,
    /// The manager-owned decoration window the foreign window sits in.
    pub wrapper: Window,
    /// Whether this window holds the workspace focus.
    pub focused: bool,
    /// The foreign window's parent before it was reparented.
    pub parent: Window,
    /// The display name read from the window's title property.
    pub name: Vec<u8>,
}

impl ManagedWindow {
    /// This window with its focused flag replaced.
    pub open spec fn with_focused(self, b: bool) -> ManagedWindow {
        ManagedWindow { focused: b, ..self }
    }

    /// This window with its display name replaced.
    pub open spec fn with_name(self, name: Vec<u8>) -> ManagedWindow {
        ManagedWindow { name, ..self }
    }

    /// Adopts a foreign window: records its wrapper and old parent,
    /// initially unfocused.
    pub fn new(window: Window, wrapper: Window, parent: Window, name: Vec<u8>) -> (r:
        ManagedWindow)
        ensures
            r.window == window,
            r.wrapper == wrapper,
            r.focused == false,
            r.parent == parent,
            r.name == name,
    {
        ManagedWindow { window, wrapper, focused: false, parent, name }
    }
}

/// One outbound request, as plain values; the caller encodes and sends
/// it.
#[derive(Debug)]
pub enum Request {
    CreateWindow(Window),
    SelectEvents { wid: u32, event_mask: u32 },
    ConfigureWindow { wid: u32, x: i16, y: i16, width: u16, height: u16 },
    ReparentWindow { window: u32, parent: u32, x: i16, y: i16 },
    MapWindow { wid: u32 },
    UnmapWindow { wid: u32 },
    DestroyWindow { wid: u32 },
    CreateGc { cid: u32, drawable: u32, foreground: u32, background: u32 },
    ChangeGcForeground { cid: u32, foreground: u32 },
    FillRectangle { drawable: u32, gc: u32, rect: Rectangle },
    DrawRectangle { drawable: u32, gc: u32, rect: Rectangle },
    DrawText { drawable: u32, gc: u32, x: i16, y: i16, text: Vec<u8> },
    KillClient { resource: u32 },
    SendExpose { window: u32, width: u16, height: u16 },
}

/// Work only the caller can do: fetch something from the server or
/// start a process, then hand the answer back in.
#[derive(Debug, Clone, Copy, PartialEq, Eq, Structural)]
pub enum Followup {
    /// Fetch the state of both windows and call the map-request
    /// completion with them.
    AdoptWindow { parent: u32, window: u32 },
    /// Re-read the window's title property and call the name
    /// completion with it.
    FetchWindowName { wid: u32 },
    /// Launch the external helper process on the manager's display.
    SpawnHelper,
}

/// The mathematical form of a request, with byte lists as sequences;
/// every contract about emitted requests speaks over this view.
#[verifier::ext_equal]
pub enum ReqView {
    CreateWindow(crate::codec::WindowImage),
    SelectEvents { wid: u32, event_mask: u32 },
    ConfigureWindow { wid: u32, x: i16, y: i16, width: u16, height: u16 },
    ReparentWindow { window: u32, parent: u32, x: i16, y: i16 },
    MapWindow { wid: u32 },
    UnmapWindow { wid: u32 },
    DestroyWindow { wid: u32 },
    CreateGc { cid: u32, drawable: u32, foreground: u32, background: u32 },
    ChangeGcForeground { cid: u32, foreground: u32 },
    FillRectangle { drawable: u32, gc: u32, rect: Rectangle },
    DrawRectangle { drawable: u32, gc: u32, rect: Rectangle },
    DrawText { drawable: u32, gc: u32, x: i16, y: i16, text: Seq<u8> },
    KillClient { resource: u32 },
    SendExpose { window: u32, width: u16, height: u16 },
}

/// The view of one request.
pub open spec fn req_view(r: Request) -> ReqView {
    match r {
        Request::CreateWindow(w) => ReqView::CreateWindow(crate::codec::window_image(w)),
        Request::SelectEvents { wid, event_mask } => ReqView::SelectEvents { wid, event_mask },
        Request::ConfigureWindow { wid, x, y, width, height } => ReqView::ConfigureWindow {
            wid,
            x,
            y,
            width,
            height,
        },
        Request::ReparentWindow { window, parent, x, y } => ReqView::ReparentWindow {
            window,
            parent,
            x,
            y,
        },
        Request::MapWindow { wid } => ReqView::MapWindow { wid },
        Request::UnmapWindow { wid } => ReqView::UnmapWindow { wid },
        Request::DestroyWindow { wid } => ReqView::DestroyWindow { wid },
        Request::CreateGc { cid, drawable, foreground, background } => ReqView::CreateGc {
            cid,
            drawable,
            foreground,
            background,
        },
        Request::ChangeGcForeground { cid, foreground } => ReqView::ChangeGcForeground {
            cid,
            foreground,
        },
        Request::FillRectangle { drawable, gc, rect } => ReqView::FillRectangle {
            drawable,
            gc,
            rect,
        },
        Request::DrawRectangle { drawable, gc, rect } => ReqView::DrawRectangle {
            drawable,
            gc,
            rect,
        },
        Request::DrawText { drawable, gc, x, y, text } => ReqView::DrawText {
            drawable,
            gc,
            x,
            y,
            text: text@,
        },
        Request::KillClient { resource } => ReqView::KillClient { resource },
        Request::SendExpose { window, width, height } => ReqView::SendExpose {
            window,
            width,
            height,
        },
    }
}

impl View for Request {
    type V = ReqView;

    open spec fn view(&self) -> ReqView {
        req_view(*self)
    }
}

/// The views of a request list, in order.
pub open spec fn reqs_view(s: Seq<Request>) -> Seq<ReqView> {
    s.map_values(|r: Request| req_view(r))
}

/// The protocol constant of the predefined window-title property.
pub open spec fn spec_wm_name_atom() -> u32 {
    39
}

/// Appends a foreground change when the requested color differs from
/// the last one applied, and records it; a repeated color costs no
/// request.
pub fn gc_set_fg(gc: &mut GraphicsContext, color: u32, out: &mut Vec<Request>)
    ensures
        final(gc).cid == old(gc).cid,
        final(gc).drawable == old(gc).drawable,
        final(gc).values == old(gc).values,
        final(gc).foreground == Some(color),
        reqs_view(final(out)@) == reqs_view(old(out)@) + spec_fg_step(
            old(gc).foreground,
            old(gc).cid,
            color,
        ),
{
    match gc.foreground {
        Some(c) => {
            if c == color {
                proof {
                    assert(reqs_view(out@) =~= reqs_view(old(out)@) + spec_fg_step(
                        old(gc).foreground,
                        gc.cid,
                        color,
                    ));
                }
                return ;
            }
        },
        None => {},
    }
    gc.foreground = Some(color);
    out.push(Request::ChangeGcForeground { cid: gc.cid, foreground: color });
    proof {
        assert(reqs_view(out@) =~= reqs_view(old(out)@) + spec_fg_step(
            old(gc).foreground,
            gc.cid,
            color,
        ));
    }
}

/// The requests a foreground change costs: none when the color is
/// already applied, one otherwise.
pub open spec fn spec_fg_step(fg: Option<u32>, cid: u32, color: u32) -> Seq<ReqView> {
    if fg == Some(color) {
        Seq::empty()
    } else {
        seq![ReqView::ChangeGcForeground { cid, foreground: color }]
    }
}

/// Subtraction on pixel sizes that stops at zero.
pub open spec fn spec_ssub(a: u16, b: u16) -> u16 {
    if a >= b {
        (a - b) as u16
    } else {
        0
    }
}

/// Computes a pixel-size difference, stopping at zero.
fn ssub(a: u16, b: u16) -> (r: u16)
    ensures
        r == spec_ssub(a, b),
{
    if a >= b {
        a - b
    } else {
        0
    }
}

/// Whether a wrapper's geometry and the configured border widths are
/// small enough to paint: every coordinate the painter computes then
/// fits a signed 16-bit value.
pub open spec fn spec_paintable(w: ManagedWindow, s: Settings) -> bool {
    &&& w.wrapper.width <= 0x7FFF
    &&& w.wrapper.height <= 0x7FFF
    &&& s.win_title_border_width_left <= 0x3000
    &&& s.win_title_border_width_top <= 0x3000
    &&& s.win_title_border_width_right <= 0x3000
    &&& s.win_title_border_width_bottom <= 0x3000
    &&& s.win_border_width_left <= 0x3000
    &&& s.win_border_width_top <= 0x3000
    &&& s.win_border_width_right <= 0x3000
    &&& s.win_border_width_bottom <= 0x3000
}

/// The title background color the focus state selects.
pub open spec fn spec_title_bg(w: ManagedWindow, s: Settings) -> u32 {
    if w.focused {
        s.win_title_bg_focused.pixel
    } else {
        s.win_title_bg.pixel
    }
}

/// The title text color the focus state selects.
pub open spec fn spec_title_fg(w: ManagedWindow, s: Settings) -> u32 {
    if w.focused {
        s.win_title_fg_focused.pixel
    } else {
        s.win_title_fg.pixel
    }
}

/// The title border color the focus state selects.
pub open spec fn spec_title_bc(w: ManagedWindow, s: Settings) -> u32 {
    if w.focused {
        s.win_title_border_color_focused.pixel
    } else {
        s.win_title_border_color.pixel
    }
}

/// The body background color the focus state selects.
pub open spec fn spec_body_bg(w: ManagedWindow, s: Settings) -> u32 {
    if w.focused {
        s.win_bg_focused.pixel
    } else {
        s.win_bg.pixel
    }
}

/// The body border color the focus state selects.
pub open spec fn spec_body_bc(w: ManagedWindow, s: Settings) -> u32 {
    if w.focused {
        s.win_border_color_focused.pixel
    } else {
        s.win_border_color.pixel
    }
}

/// The title bar fill and text: the first phase of a paint.
pub open spec fn spec_paint_part1(
    w: ManagedWindow,
    fg0: Option<u32>,
    cid: u32,
    s: Settings,
) -> Seq<ReqView> {
    spec_fg_step(fg0, cid, spec_title_bg(w, s)) + seq![
        ReqView::FillRectangle {
            drawable: w.wrapper.wid,
            gc: cid,
            rect: Rectangle {
                x: s.win_title_border_width_left as i16,
                y: s.win_title_border_width_left as i16,
                width: spec_ssub(
                    spec_ssub(w.wrapper.width, s.win_title_border_width_left),
                    s.win_title_border_width_right,
                ),
                height: spec_ssub(
                    spec_ssub(20, s.win_title_border_width_top),
                    s.win_title_border_width_bottom,
                ),
            },
        },
    ] + spec_fg_step(Some(spec_title_bg(w, s)), cid, spec_title_fg(w, s)) + seq![
        ReqView::DrawText { drawable: w.wrapper.wid, gc: cid, x: 0i16, y: 10i16, text: w.name@ },
    ]
}

/// The title border: the second phase of a paint, empty when every
/// title border width is zero.
pub open spec fn spec_paint_part2(w: ManagedWindow, cid: u32, s: Settings) -> Seq<ReqView> {
    if s.win_title_border_width_left + s.win_title_border_width_top
        + s.win_title_border_width_right + s.win_title_border_width_bottom > 0 {
        spec_fg_step(Some(spec_title_fg(w, s)), cid, spec_title_bc(w, s))
            + spec_title_border_rects(w, s, cid)
    } else {
        Seq::empty()
    }
}

/// The color left applied after the second phase.
pub open spec fn spec_fg_after_part2(w: ManagedWindow, s: Settings) -> u32 {
    if s.win_title_border_width_left + s.win_title_border_width_top
        + s.win_title_border_width_right + s.win_title_border_width_bottom > 0 {
        spec_title_bc(w, s)
    } else {
        spec_title_fg(w, s)
    }
}

/// The body fill: the third phase of a paint.
pub open spec fn spec_paint_part3(w: ManagedWindow, cid: u32, s: Settings) -> Seq<ReqView> {
    spec_fg_step(Some(spec_fg_after_part2(w, s)), cid, spec_body_bg(w, s)) + seq![
        ReqView::FillRectangle {
            drawable: w.wrapper.wid,
            gc: cid,
            rect: Rectangle {
                x: s.win_border_width_left as i16,
                y: (20 + s.win_border_width_top) as i16,
                width: spec_ssub(
                    spec_ssub(w.wrapper.width, s.win_border_width_left),
                    s.win_border_width_right,
                ),
                height: spec_ssub(
                    spec_ssub(
                        spec_ssub(w.wrapper.height, 20),
                        s.win_border_width_top,
                    ),
                    s.win_border_width_bottom,
                ),
            },
        },
    ]
}

/// The body border: the last phase of a paint, empty when every body
/// border width is zero.
pub open spec fn spec_paint_part4(w: ManagedWindow, cid: u32, s: Settings) -> Seq<ReqView> {
    if s.win_border_width_left + s.win_border_width_top + s.win_border_width_right
        + s.win_border_width_bottom > 0 {
        spec_fg_step(Some(spec_body_bg(w, s)), cid, spec_body_bc(w, s)) + spec_body_border_rects(
            w,
            s,
            cid,
        )
    } else {
        Seq::empty()
    }
}

/// The color left applied after the last phase.
pub open spec fn spec_fg_after_part4(w: ManagedWindow, s: Settings) -> u32 {
    if s.win_border_width_left + s.win_border_width_top + s.win_border_width_right
        + s.win_border_width_bottom > 0 {
        spec_body_bc(w, s)
    } else {
        spec_body_bg(w, s)
    }
}

/// The decoration requests for a managed window: title bar, title
/// text, title border, body background, and body border, with each
/// color set only when it differs from the one last applied.
pub open spec fn spec_paint(w: ManagedWindow, fg0: Option<u32>, cid: u32, s: Settings) -> (
    Seq<ReqView>,
    Option<u32>,
) {
    if !spec_paintable(w, s) {
        (Seq::empty(), fg0)
    } else {
        (
            spec_paint_part1(w, fg0, cid, s) + spec_paint_part2(w, cid, s) + spec_paint_part3(
                w,
                cid,
                s,
            ) + spec_paint_part4(w, cid, s),
            Some(spec_fg_after_part4(w, s)),
        )
    }
}

/// The title-border outline rectangles: left, top, right and bottom
/// edges, each only when its configured width is nonzero.
pub open spec fn spec_title_border_rects(w: ManagedWindow, s: Settings, cid: u32) -> Seq<ReqView> {
    let d = w.wrapper.wid;
    let tl = s.win_title_border_width_left;
    let tt = s.win_title_border_width_top;
    let tr = s.win_title_border_width_right;
    let tb = s.win_title_border_width_bottom;
    (if tl > 0 {
        seq![
            ReqView::DrawRectangle {
                drawable: d,
                gc: cid,
                rect: Rectangle { x: 0i16, y: 0i16, width: (tl - 1) as u16, height: 20u16 },
            },
        ]
    } else {
        Seq::empty()
    }) + (if tt > 0 {
        seq![
            ReqView::DrawRectangle {
                drawable: d,
                gc: cid,
                rect: Rectangle {
                    x: 0i16,
                    y: 0i16,
                    width: w.wrapper.width,
                    height: (tt - 1) as u16,
                },
            },
        ]
    } else {
        Seq::empty()
    }) + (if tr > 0 {
        seq![
            ReqView::DrawRectangle {
                drawable: d,
                gc: cid,
                rect: Rectangle {
                    x: spec_ssub(w.wrapper.width, tr) as i16,
                    y: 0i16,
                    width: (tr - 1) as u16,
                    height: 20u16,
                },
            },
        ]
    } else {
        Seq::empty()
    }) + (if tb > 0 {
        seq![
            ReqView::DrawRectangle {
                drawable: d,
                gc: cid,
                rect: Rectangle {
                    x: 0i16,
                    y: spec_ssub(w.wrapper.height, tb) as i16,
                    width: w.wrapper.width,
                    height: tb,
                },
            },
        ]
    } else {
        Seq::empty()
    })
}

/// The body-border outline rectangles below the title strip.
pub open spec fn spec_body_border_rects(w: ManagedWindow, s: Settings, cid: u32) -> Seq<ReqView> {
    let d = w.wrapper.wid;
    let bl = s.win_border_width_left;
    let bt = s.win_border_width_top;
    let br = s.win_border_width_right;
    let bb = s.win_border_width_bottom;
    (if bl > 0 {
        seq![
            ReqView::DrawRectangle {
                drawable: d,
                gc: cid,
                rect: Rectangle {
                    x: 0i16,
                    y: 20i16,
                    width: (bl - 1) as u16,
                    height: spec_ssub(w.wrapper.height, 20),
                },
            },
        ]
    } else {
        Seq::empty()
    }) + (if bt > 0 {
        seq![
            ReqView::DrawRectangle {
                drawable: d,
                gc: cid,
                rect: Rectangle {
                    x: 0i16,
                    y: 20i16,
                    width: w.wrapper.width,
                    height: (bt - 1) as u16,
                },
            },
        ]
    } else {
        Seq::empty()
    }) + (if br > 0 {
        seq![
            ReqView::DrawRectangle {
                drawable: d,
                gc: cid,
                rect: Rectangle {
                    x: spec_ssub(w.wrapper.width, br) as i16,
                    y: 20i16,
                    width: (br - 1) as u16,
                    height: spec_ssub(w.wrapper.height, 20),
                },
            },
        ]
    } else {
        Seq::empty()
    }) + (if bb > 0 {
        seq![
            ReqView::DrawRectangle {
                drawable: d,
                gc: cid,
                rect: Rectangle {
                    x: 0i16,
                    y: spec_ssub(w.wrapper.height, bb) as i16,
                    width: w.wrapper.width,
                    height: (bb - 1) as u16,
                },
            },
        ]
    } else {
        Seq::empty()
    })
}

impl ManagedWindow {
    /// Paints the wrapper's decoration: the title bar and text, the
    /// borders, and the body background, in the colors the focus state
    /// selects.  A wrapper too large to lay out in signed 16-bit
    /// coordinates is skipped.
    /// Paints the title border: one outline rectangle per configured
    /// edge, in the title border color the focus state selects; nothing
    /// when every title border width is zero.
    #[verifier::rlimit(100)]
    #[verifier::spinoff_prover]
    fn paint_title_border(
        &self,
        gc: &mut GraphicsContext,
        settings: &Settings,
        out: &mut Vec<Request>,
    )
        requires
            spec_paintable(*self, *settings),
            old(gc).foreground == Some(spec_title_fg(*self, *settings)),
        ensures
            final(gc).cid == old(gc).cid,
            final(gc).drawable == old(gc).drawable,
            final(gc).values == old(gc).values,
            final(gc).foreground == Some(spec_fg_after_part2(*self, *settings)),
            reqs_view(final(out)@) == reqs_view(old(out)@) + spec_paint_part2(
                *self,
                old(gc).cid,
                *settings,
            ),
    {
        let s = settings;
        let d = self.wrapper.wid;
        let title_fg = if self.focused {
            s.win_title_fg_focused.pixel
        } else {
            s.win_title_fg.pixel
        };
        let title_bc = if self.focused {
            s.win_title_border_color_focused.pixel
        } else {
            s.win_title_border_color.pixel
        };
        let tl = s.win_title_border_width_left;
        let tt = s.win_title_border_width_top;
        let tr = s.win_title_border_width_right;
        let tb = s.win_title_border_width_bottom;
        if tl + tt + tr + tb > 0 {
            gc_set_fg(gc, title_bc, out);
            let ghost g0 = reqs_view(out@);
            proof {
                assert(g0 =~= reqs_view(old(out)@) + spec_fg_step(Some(title_fg), old(gc).cid, title_bc));
            }
            if tl > 0 {
                out.push(
                    Request::DrawRectangle {
                        drawable: d,
                        gc: gc.cid,
                        rect: Rectangle { x: 0, y: 0, width: tl - 1, height: 20 },
                    },
                );
            }
            let ghost g1 = reqs_view(out@);
            proof {
                assert(g1 =~= g0 + (if tl > 0 {
                    seq![
                        ReqView::DrawRectangle {
                            drawable: d,
                            gc: old(gc).cid,
                            rect: Rectangle {
                                x: 0i16,
                                y: 0i16,
                                width: (tl - 1) as u16,
                                height: 20u16,
                            },
                        },
                    ]
                } else {
                    Seq::empty()
                }));
            }
            if tt > 0 {
                out.push(
                    Request::DrawRectangle {
                        drawable: d,
                        gc: gc.cid,
                        rect: Rectangle { x: 0, y: 0, width: self.wrapper.width, height: tt - 1 },
                    },
                );
            }
            let ghost g2 = reqs_view(out@);
            proof {
                assert(g2 =~= g1 + (if tt > 0 {
                    seq![
                        ReqView::DrawRectangle {
                            drawable: d,
                            gc: old(gc).cid,
                            rect: Rectangle {
                                x: 0i16,
                                y: 0i16,
                                width: self.wrapper.width,
                                height: (tt - 1) as u16,
                            },
                        },
                    ]
                } else {
                    Seq::empty()
                }));
            }
            if tr > 0 {
                out.push(
                    Request::DrawRectangle {
                        drawable: d,
                        gc: gc.cid,
                        rect: Rectangle {
                            x: ssub(self.wrapper.width, tr) as i16,
                            y: 0,
                            width: tr - 1,
                            height: 20,
                        },
                    },
                );
            }
            let ghost g3 = reqs_view(out@);
            proof {
                assert(g3 =~= g2 + (if tr > 0 {
                    seq![
                        ReqView::DrawRectangle {
                            drawable: d,
                            gc: old(gc).cid,
                            rect: Rectangle {
                                x: spec_ssub(self.wrapper.width, tr) as i16,
                                y: 0i16,
                                width: (tr - 1) as u16,
                                height: 20u16,
                            },
                        },
                    ]
                } else {
                    Seq::empty()
                }));
            }
            if tb > 0 {
                out.push(
                    Request::DrawRectangle {
                        drawable: d,
                        gc: gc.cid,
                        rect: Rectangle {
                            x: 0,
                            y: ssub(self.wrapper.height, tb) as i16,
                            width: self.wrapper.width,
                            height: tb,
                        },
                    },
                );
            }
            proof {
                let g4 = reqs_view(out@);
                assert(g4 =~= g3 + (if tb > 0 {
                    seq![
                        ReqView::DrawRectangle {
                            drawable: d,
                            gc: old(gc).cid,
                            rect: Rectangle {
                                x: 0i16,
                                y: spec_ssub(self.wrapper.height, tb) as i16,
                                width: self.wrapper.width,
                                height: tb,
                            },
                        },
                    ]
                } else {
                    Seq::empty()
                }));
                assert(g4 =~= reqs_view(old(out)@) + spec_paint_part2(*self, old(gc).cid, *s));
            }
        }
        proof {
            assert(reqs_view(out@) =~= reqs_view(old(out)@) + spec_paint_part2(
                *self,
                old(gc).cid,
                *s,
            ));
        }
    }

    /// Paints the body border below the title strip: one outline
    /// rectangle per configured edge; nothing when every body border
    /// width is zero.
    #[verifier::rlimit(100)]
    #[verifier::spinoff_prover]
    fn paint_body_border(
        &self,
        gc: &mut GraphicsContext,
        settings: &Settings,
        out: &mut Vec<Request>,
    )
        requires
            spec_paintable(*self, *settings),
            old(gc).foreground == Some(spec_body_bg(*self, *settings)),
        ensures
            final(gc).cid == old(gc).cid,
            final(gc).drawable == old(gc).drawable,
            final(gc).values == old(gc).values,
            final(gc).foreground == Some(spec_fg_after_part4(*self, *settings)),
            reqs_view(final(out)@) == reqs_view(old(out)@) + spec_paint_part4(
                *self,
                old(gc).cid,
                *settings,
            ),
    {
        let s = settings;
        let d = self.wrapper.wid;
        let bg = if self.focused {
            s.win_bg_focused.pixel
        } else {
            s.win_bg.pixel
        };
        let bc = if self.focused {
            s.win_border_color_focused.pixel
        } else {
            s.win_border_color.pixel
        };
        let bl = s.win_border_width_left;
        let bt = s.win_border_width_top;
        let br = s.win_border_width_right;
        let bb = s.win_border_width_bottom;
        if bl + bt + br + bb > 0 {
            gc_set_fg(gc, bc, out);
            let ghost h0 = reqs_view(out@);
            proof {
                assert(h0 =~= reqs_view(old(out)@) + spec_fg_step(Some(bg), old(gc).cid, bc));
            }
            if bl > 0 {
                out.push(
                    Request::DrawRectangle {
                        drawable: d,
                        gc: gc.cid,
                        rect: Rectangle {
                            x: 0,
                            y: 20,
                            width: bl - 1,
                            height: ssub(self.wrapper.height, 20),
                        },
                    },
                );
            }
            let ghost h1 = reqs_view(out@);
            proof {
                assert(h1 =~= h0 + (if bl > 0 {
                    seq![
                        ReqView::DrawRectangle {
                            drawable: d,
                            gc: old(gc).cid,
                            rect: Rectangle {
                                x: 0i16,
                                y: 20i16,
                                width: (bl - 1) as u16,
                                height: spec_ssub(self.wrapper.height, 20),
                            },
                        },
                    ]
                } else {
                    Seq::empty()
                }));
            }
            if bt > 0 {
                out.push(
                    Request::DrawRectangle {
                        drawable: d,
                        gc: gc.cid,
                        rect: Rectangle { x: 0, y: 20, width: self.wrapper.width, height: bt - 1 },
                    },
                );
            }
            let ghost h2 = reqs_view(out@);
            proof {
                assert(h2 =~= h1 + (if bt > 0 {
                    seq![
                        ReqView::DrawRectangle {
                            drawable: d,
                            gc: old(gc).cid,
                            rect: Rectangle {
                                x: 0i16,
                                y: 20i16,
                                width: self.wrapper.width,
                                height: (bt - 1) as u16,
                            },
                        },
                    ]
                } else {
                    Seq::empty()
                }));
            }
            if br > 0 {
                out.push(
                    Request::DrawRectangle {
                        drawable: d,
                        gc: gc.cid,
                        rect: Rectangle {
                            x: ssub(self.wrapper.width, br) as i16,
                            y: 20,
                            width: br - 1,
                            height: ssub(self.wrapper.height, 20),
                        },
                    },
                );
            }
            let ghost h3 = reqs_view(out@);
            proof {
                assert(h3 =~= h2 + (if br > 0 {
                    seq![
                        ReqView::DrawRectangle {
                            drawable: d,
                            gc: old(gc).cid,
                            rect: Rectangle {
                                x: spec_ssub(self.wrapper.width, br) as i16,
                                y: 20i16,
                                width: (br - 1) as u16,
                                height: spec_ssub(self.wrapper.height, 20),
                            },
                        },
                    ]
                } else {
                    Seq::empty()
                }));
            }
            if bb > 0 {
                out.push(
                    Request::DrawRectangle {
                        drawable: d,
                        gc: gc.cid,
                        rect: Rectangle {
                            x: 0,
                            y: ssub(self.wrapper.height, bb) as i16,
                            width: self.wrapper.width,
                            height: bb - 1,
                        },
                    },
                );
            }
            proof {
                let h4 = reqs_view(out@);
                assert(h4 =~= h3 + (if bb > 0 {
                    seq![
                        ReqView::DrawRectangle {
                            drawable: d,
                            gc: old(gc).cid,
                            rect: Rectangle {
                                x: 0i16,
                                y: spec_ssub(self.wrapper.height, bb) as i16,
                                width: self.wrapper.width,
                                height: (bb - 1) as u16,
                            },
                        },
                    ]
                } else {
                    Seq::empty()
                }));
                assert(h4 =~= reqs_view(old(out)@) + spec_paint_part4(*self, old(gc).cid, *s));
            }
        }
        proof {
            assert(reqs_view(out@) =~= reqs_view(old(out)@) + spec_paint_part4(
                *self,
                old(gc).cid,
                *s,
            ));
        }
    }

    #[verifier::rlimit(80)]
    pub fn paint(
        &self,
        gc: &mut GraphicsContext,
        settings: &Settings,
        out: &mut Vec<Request>,
    )
        ensures
            final(gc).cid == old(gc).cid,
            final(gc).drawable == old(gc).drawable,
            final(gc).values == old(gc).values,
            reqs_view(final(out)@) == reqs_view(old(out)@) + spec_paint(
                *self,
                old(gc).foreground,
                old(gc).cid,
                *settings,
            ).0,
            final(gc).foreground == spec_paint(
                *self,
                old(gc).foreground,
                old(gc).cid,
                *settings,
            ).1,
    {
        let s = settings;
        if !(self.wrapper.width <= 0x7FFF && self.wrapper.height <= 0x7FFF
            && s.win_title_border_width_left <= 0x3000 && s.win_title_border_width_top <= 0x3000
            && s.win_title_border_width_right <= 0x3000 && s.win_title_border_width_bottom
            <= 0x3000 && s.win_border_width_left <= 0x3000 && s.win_border_width_top <= 0x3000
            && s.win_border_width_right <= 0x3000 && s.win_border_width_bottom <= 0x3000) {
            proof {
                assert(reqs_view(out@) =~= reqs_view(old(out)@) + spec_paint(
                    *self,
                    old(gc).foreground,
                    old(gc).cid,
                    *s,
                ).0);
            }
            return ;
        }
        let d = self.wrapper.wid;
        let focused = self.focused;
        let title_bg = if focused {
            s.win_title_bg_focused.pixel
        } else {
            s.win_title_bg.pixel
        };
        let title_fg = if focused {
            s.win_title_fg_focused.pixel
        } else {
            s.win_title_fg.pixel
        };
        let title_bc = if focused {
            s.win_title_border_color_focused.pixel
        } else {
            s.win_title_border_color.pixel
        };
        let bg = if focused {
            s.win_bg_focused.pixel
        } else {
            s.win_bg.pixel
        };
        let bc = if focused {
            s.win_border_color_focused.pixel
        } else {
            s.win_border_color.pixel
        };
        let tl = s.win_title_border_width_left;
        let tt = s.win_title_border_width_top;
        let tr = s.win_title_border_width_right;
        let tb = s.win_title_border_width_bottom;
        let bl = s.win_border_width_left;
        let bt = s.win_border_width_top;
        let br = s.win_border_width_right;
        let bb = s.win_border_width_bottom;
        proof {
            assert(title_bg == spec_title_bg(*self, *s));
            assert(title_fg == spec_title_fg(*self, *s));
            assert(title_bc == spec_title_bc(*self, *s));
            assert(bg == spec_body_bg(*self, *s));
            assert(bc == spec_body_bc(*self, *s));
        }
        gc_set_fg(gc, title_bg, out);
        let ghost m1 = reqs_view(out@);
        proof {
            assert(m1 =~= reqs_view(old(out)@) + spec_fg_step(
                old(gc).foreground,
                old(gc).cid,
                title_bg,
            ));
        }
        out.push(
            Request::FillRectangle {
                drawable: d,
                gc: gc.cid,
                rect: Rectangle {
                    x: tl as i16,
                    y: tl as i16,
                    width: ssub(ssub(self.wrapper.width, tl), tr),
                    height: ssub(ssub(20, tt), tb),
                },
            },
        );
        let ghost m2 = reqs_view(out@);
        proof {
            assert(m2 =~= m1 + seq![
                ReqView::FillRectangle {
                    drawable: d,
                    gc: old(gc).cid,
                    rect: Rectangle {
                        x: tl as i16,
                        y: tl as i16,
                        width: spec_ssub(spec_ssub(self.wrapper.width, tl), tr),
                        height: spec_ssub(spec_ssub(20, tt), tb),
                    },
                },
            ]);
        }
        gc_set_fg(gc, title_fg, out);
        let ghost m3 = reqs_view(out@);
        proof {
            assert(m3 =~= m2 + spec_fg_step(Some(title_bg), old(gc).cid, title_fg));
        }
        let mut text: Vec<u8> = Vec::new();
        let mut i: usize = 0;
        let n = self.name.len();
        while i < n
            invariant
                i <= n,
                n == self.name.len(),
                text@ == self.name@.take(i as int),
            decreases n - i,
        {
            let b = self.name[i];
            text.push(b);
            i = i + 1;
            proof {
                assert(text@ =~= self.name@.take(i as int));
            }
        }
        proof {
            assert(text@ =~= self.name@);
        }
        out.push(Request::DrawText { drawable: d, gc: gc.cid, x: 0, y: 10, text });
        proof {
            assert(reqs_view(out@) =~= m3 + seq![
                ReqView::DrawText {
                    drawable: d,
                    gc: old(gc).cid,
                    x: 0i16,
                    y: 10i16,
                    text: self.name@,
                },
            ]);
            let p1 = spec_paint_part1(*self, old(gc).foreground, old(gc).cid, *s);
            if old(gc).foreground == Some(title_bg) {
                if title_bg == title_fg {
                    assert(reqs_view(out@) =~= reqs_view(old(out)@) + p1);
                } else {
                    assert(reqs_view(out@) =~= reqs_view(old(out)@) + p1);
                }
            } else {
                if title_bg == title_fg {
                    assert(reqs_view(out@) =~= reqs_view(old(out)@) + p1);
                } else {
                    assert(reqs_view(out@) =~= reqs_view(old(out)@) + p1);
                }
            }
            assert(reqs_view(out@) =~= reqs_view(old(out)@) + p1);
        }
        let ghost a1 = reqs_view(out@);
        self.paint_title_border(gc, s, out);
        proof {
            assert(reqs_view(out@) =~= a1 + spec_paint_part2(*self, old(gc).cid, *s));
            assert(reqs_view(out@) =~= reqs_view(old(out)@) + spec_paint_part1(
                *self,
                old(gc).foreground,
                old(gc).cid,
                *s,
            ) + spec_paint_part2(*self, old(gc).cid, *s));
            assert(gc.foreground == Some(spec_fg_after_part2(*self, *s)));
        }
        let ghost a2 = reqs_view(out@);
        gc_set_fg(gc, bg, out);
        let ghost k0 = reqs_view(out@);
        proof {
            assert(k0 =~= a2 + spec_fg_step(Some(spec_fg_after_part2(*self, *s)), old(gc).cid, bg));
        }
        out.push(
            Request::FillRectangle {
                drawable: d,
                gc: gc.cid,
                rect: Rectangle {
                    x: bl as i16,
                    y: (20 + bt) as i16,
                    width: ssub(ssub(self.wrapper.width, bl), br),
                    height: ssub(ssub(ssub(self.wrapper.height, 20), bt), bb),
                },
            },
        );
        let ghost a3 = reqs_view(out@);
        proof {
            assert(a3 =~= k0 + seq![
                ReqView::FillRectangle {
                    drawable: d,
                    gc: old(gc).cid,
                    rect: Rectangle {
                        x: bl as i16,
                        y: (20 + bt) as i16,
                        width: spec_ssub(spec_ssub(self.wrapper.width, bl), br),
                        height: spec_ssub(spec_ssub(spec_ssub(self.wrapper.height, 20), bt), bb),
                    },
                },
            ]);
            assert(a3 =~= a2 + spec_paint_part3(*self, old(gc).cid, *s));
            assert(a3 =~= a1 + spec_paint_part2(*self, old(gc).cid, *s) + spec_paint_part3(
                *self,
                old(gc).cid,
                *s,
            ));
        }
        self.paint_body_border(gc, s, out);
        proof {
            assert(reqs_view(out@) =~= a3 + spec_paint_part4(*self, old(gc).cid, *s));
            assert(reqs_view(out@) =~= reqs_view(old(out)@) + spec_paint(
                *self,
                old(gc).foreground,
                old(gc).cid,
                *s,
            ).0);
        }
    }
}

/// One virtual desktop: an identifier, a full-screen root-level
/// container window, and the tiling tree that owns its windows.
#[derive(Debug)]
pub struct Workspace {
    pub id: u32,
    pub screen: usize,
    pub window: Window,
    pub tiling: Tiled,
}

impl Workspace {
    /// A workspace is well formed when its tree is, every split sits
    /// at its even split point, and its container's geometry fits the
    /// signed 16-bit coordinate space.
    pub open spec fn wf(self) -> bool {
        &&& self.tiling.wf()
        &&& self.tiling@.offsets_zero()
        &&& 0 <= self.window.x
        &&& 0 <= self.window.y
        &&& self.window.x + self.window.width <= 0x7FFF
        &&& self.window.y + self.window.height <= 0x7FFF
    }

    /// The background fill of a workspace root: the configured desktop
    /// color over the container's full area.
    pub open spec fn spec_paint_background(self, fg0: Option<u32>, cid: u32, s: Settings) -> Seq<
        ReqView,
    > {
        spec_fg_step(fg0, cid, s.background_color.pixel) + seq![
            ReqView::FillRectangle {
                drawable: self.window.wid,
                gc: cid,
                rect: Rectangle {
                    x: 0i16,
                    y: 0i16,
                    width: self.window.width,
                    height: self.window.height,
                },
            },
        ]
    }

    /// Fills the workspace root with the configured desktop color.
    pub fn paint_background(
        &self,
        gc: &mut GraphicsContext,
        settings: &Settings,
        out: &mut Vec<Request>,
    )
        ensures
            final(gc).cid == old(gc).cid,
            final(gc).drawable == old(gc).drawable,
            final(gc).values == old(gc).values,
            final(gc).foreground == Some(settings.background_color.pixel),
            reqs_view(final(out)@) == reqs_view(old(out)@) + self.spec_paint_background(
                old(gc).foreground,
                old(gc).cid,
                *settings,
            ),
    {
        gc_set_fg(gc, settings.background_color.pixel, out);
        let ghost m0 = reqs_view(out@);
        proof {
            assert(m0 =~= reqs_view(old(out)@) + spec_fg_step(
                old(gc).foreground,
                old(gc).cid,
                settings.background_color.pixel,
            ));
        }
        out.push(
            Request::FillRectangle {
                drawable: self.window.wid,
                gc: gc.cid,
                rect: Rectangle {
                    x: 0,
                    y: 0,
                    width: self.window.width,
                    height: self.window.height,
                },
            },
        );
        proof {
            assert(reqs_view(out@) =~= m0.push(
                ReqView::FillRectangle {
                    drawable: self.window.wid,
                    gc: old(gc).cid,
                    rect: Rectangle {
                        x: 0i16,
                        y: 0i16,
                        width: self.window.width,
                        height: self.window.height,
                    },
                },
            ));
            assert(reqs_view(out@) =~= reqs_view(old(out)@) + self.spec_paint_background(
                old(gc).foreground,
                old(gc).cid,
                *settings,
            ));
        }
    }
}

/// The request a tiling command turns into.
pub open spec fn tile_cmd_view(c: TileCommand) -> ReqView {
    match c {
        TileCommand::ConfigureWrapper { wid, x, y, width, height } => ReqView::ConfigureWindow {
            wid,
            x,
            y,
            width,
            height,
        },
        TileCommand::ConfigureWindow { wid, x, y, width, height } => ReqView::ConfigureWindow {
            wid,
            x,
            y,
            width,
            height,
        },
        TileCommand::Expose { wid, width, height } => ReqView::SendExpose {
            window: wid,
            width,
            height,
        },
    }
}

/// The requests of a command list, in order.
pub open spec fn tile_cmd_views(cmds: Seq<TileCommand>) -> Seq<ReqView> {
    cmds.map_values(|c: TileCommand| tile_cmd_view(c))
}

/// The requests one workspace's tiling pass issues.
pub open spec fn spec_ws_tile_reqs(w: Workspace) -> Seq<ReqView> {
    tile_cmd_views(
        w.tiling@.tile_cmds(
            w.window.x,
            w.window.y,
            w.window.width,
            w.window.height,
            false,
        ),
    )
}

/// The requests a full tiling pass over all workspaces issues, in
/// workspace order.
pub open spec fn spec_tile_reqs(ws: Seq<Workspace>) -> Seq<ReqView>
    decreases ws.len(),
{
    if ws.len() == 0 {
        Seq::empty()
    } else {
        spec_ws_tile_reqs(ws[0]) + spec_tile_reqs(ws.drop_first())
    }
}

/// Extending the tiled prefix by one workspace appends its requests.
proof fn lemma_tile_reqs_snoc(ws: Seq<Workspace>, i: int)
    requires
        0 <= i < ws.len(),
    ensures
        spec_tile_reqs(ws.take(i + 1)) == spec_tile_reqs(ws.take(i)) + spec_ws_tile_reqs(ws[i]),
    decreases i,
{
    reveal_with_fuel(spec_tile_reqs, 2);
    if i == 0 {
        assert(ws.take(0) =~= Seq::<Workspace>::empty());
        assert(ws.take(1).drop_first() =~= Seq::<Workspace>::empty());
        assert(spec_tile_reqs(ws.take(1)) =~= spec_ws_tile_reqs(ws[0]));
        assert(spec_tile_reqs(ws.take(0)) + spec_ws_tile_reqs(ws[0]) =~= spec_ws_tile_reqs(
            ws[0],
        ));
    } else {
        let t = ws.drop_first();
        lemma_tile_reqs_snoc(t, i - 1);
        assert(ws.take(i + 1).drop_first() =~= t.take(i));
        assert(ws.take(i).drop_first() =~= t.take(i - 1));
        assert(t[i - 1] == ws[i]);
        assert(spec_tile_reqs(ws.take(i + 1)) =~= spec_ws_tile_reqs(ws[0]) + spec_tile_reqs(
            t.take(i),
        ));
        assert(spec_tile_reqs(ws.take(i)) =~= spec_ws_tile_reqs(ws[0]) + spec_tile_reqs(
            t.take(i - 1),
        ));
    }
}

/// Appends the request of each tiling command, in order.
fn push_tile_requests(cmds: &Vec<TileCommand>, out: &mut Vec<Request>)
    ensures
        reqs_view(final(out)@) == reqs_view(old(out)@) + tile_cmd_views(cmds@),
{
    let n = cmds.len();
    let mut i: usize = 0;
    while i < n
        invariant
            i <= n,
            n == cmds.len(),
            reqs_view(out@) == reqs_view(old(out)@) + tile_cmd_views(cmds@.take(i as int)),
        decreases n - i,
    {
        let c = cmds[i];
        let r = match c {
            TileCommand::ConfigureWrapper { wid, x, y, width, height } => {
                Request::ConfigureWindow { wid, x, y, width, height }
            },
            TileCommand::ConfigureWindow { wid, x, y, width, height } => {
                Request::ConfigureWindow { wid, x, y, width, height }
            },
            TileCommand::Expose { wid, width, height } => {
                Request::SendExpose { window: wid, width, height }
            },
        };
        let ghost before = reqs_view(out@);
        let ghost rv = req_view(r);
        out.push(r);
        i = i + 1;
        proof {
            assert(reqs_view(out@) =~= before.push(rv));
            assert(rv == tile_cmd_view(cmds@[i as int - 1]));
            assert(cmds@.take(i as int) =~= cmds@.take(i as int - 1).push(cmds@[i as int - 1]));
            assert(tile_cmd_views(cmds@.take(i as int)) =~= tile_cmd_views(
                cmds@.take(i as int - 1),
            ).push(tile_cmd_view(cmds@[i as int - 1])));
            assert(reqs_view(out@) =~= reqs_view(old(out)@) + tile_cmd_views(
                cmds@.take(i as int),
            ));
        }
    }
    proof {
        assert(cmds@.take(n as int) =~= cmds@);
    }
}

/// The requests a full tiling pass issues right after every tree was
/// refocused by the handle.
pub open spec fn spec_tile_reqs_refocused(ws: Seq<Workspace>, wid: u32) -> Seq<ReqView>
    decreases ws.len(),
{
    if ws.len() == 0 {
        Seq::empty()
    } else {
        tile_cmd_views(
            ws[0].tiling@.refocus(wid).tile_cmds(
                ws[0].window.x,
                ws[0].window.y,
                ws[0].window.width,
                ws[0].window.height,
                false,
            ),
        ) + spec_tile_reqs_refocused(ws.drop_first(), wid)
    }
}

/// The requests a full tiling pass issues right after the handle was
/// removed from every tree.
pub open spec fn spec_tile_reqs_removed(ws: Seq<Workspace>, wid: u32) -> Seq<ReqView>
    decreases ws.len(),
{
    if ws.len() == 0 {
        Seq::empty()
    } else {
        tile_cmd_views(
            ws[0].tiling@.spec_remove(wid).0.tile_cmds(
                ws[0].window.x,
                ws[0].window.y,
                ws[0].window.width,
                ws[0].window.height,
                false,
            ),
        ) + spec_tile_reqs_removed(ws.drop_first(), wid)
    }
}

/// A tiling pass over already-refocused trees issues the refocused
/// requests.
proof fn lemma_tile_reqs_refocused_congruence(mid: Seq<Workspace>, ws: Seq<Workspace>, wid: u32)
    requires
        mid.len() == ws.len(),
        forall|i: int|
            0 <= i < ws.len() ==> (#[trigger] mid[i]).window == ws[i].window && mid[i].tiling@
                == ws[i].tiling@.refocus(wid),
    ensures
        spec_tile_reqs(mid) == spec_tile_reqs_refocused(ws, wid),
    decreases ws.len(),
{
    if ws.len() > 0 {
        let mt = mid.drop_first();
        let wt = ws.drop_first();
        assert(forall|i: int|
            0 <= i < wt.len() ==> #[trigger] mt[i] == mid[i + 1] && wt[i] == ws[i + 1]);
        lemma_tile_reqs_refocused_congruence(mt, wt, wid);
    }
}

/// A tiling pass over trees the handle was already removed from issues
/// the post-removal requests.
proof fn lemma_tile_reqs_removed_congruence(mid: Seq<Workspace>, ws: Seq<Workspace>, wid: u32)
    requires
        mid.len() == ws.len(),
        forall|i: int|
            0 <= i < ws.len() ==> (#[trigger] mid[i]).window == ws[i].window && mid[i].tiling@
                == ws[i].tiling@.spec_remove(wid).0,
    ensures
        spec_tile_reqs(mid) == spec_tile_reqs_removed(ws, wid),
    decreases ws.len(),
{
    if ws.len() > 0 {
        let mt = mid.drop_first();
        let wt = ws.drop_first();
        assert(forall|i: int|
            0 <= i < wt.len() ==> #[trigger] mt[i] == mid[i + 1] && wt[i] == ws[i + 1]);
        lemma_tile_reqs_removed_congruence(mt, wt, wid);
    }
}

/// The requests a full tiling pass would issue if the tree at one
/// position were first replaced./// The requests a full tiling pass would issue if the tree at one
/// position were first replaced.
pub open spec fn spec_tile_reqs_with(
    ws: Seq<Workspace>,
    at: int,
    t: crate::tiling::TileView,
) -> Seq<ReqView>
    decreases ws.len(),
{
    if ws.len() == 0 {
        Seq::empty()
    } else {
        tile_cmd_views(
            (if at == 0 {
                t
            } else {
                ws[0].tiling@
            }).tile_cmds(
                ws[0].window.x,
                ws[0].window.y,
                ws[0].window.width,
                ws[0].window.height,
                false,
            ),
        ) + spec_tile_reqs_with(ws.drop_first(), at - 1, t)
    }
}

/// A tiling pass over trees already rewritten at one position issues
/// the rewritten requests.
proof fn lemma_tile_reqs_with_congruence(
    mid: Seq<Workspace>,
    ws: Seq<Workspace>,
    at: int,
    t: crate::tiling::TileView,
)
    requires
        mid.len() == ws.len(),
        forall|i: int|
            0 <= i < ws.len() ==> (#[trigger] mid[i]).window == ws[i].window && (i != at
                ==> mid[i].tiling@ == ws[i].tiling@),
        0 <= at < ws.len() ==> mid[at].tiling@ == t,
    ensures
        spec_tile_reqs(mid) == spec_tile_reqs_with(ws, at, t),
    decreases ws.len(),
{
    if ws.len() > 0 {
        let mt = mid.drop_first();
        let wt = ws.drop_first();
        assert(forall|i: int|
            0 <= i < wt.len() ==> #[trigger] mt[i] == mid[i + 1] && wt[i] == ws[i + 1]);
        lemma_tile_reqs_with_congruence(mt, wt, at - 1, t);
    }
}

/// The event mask bits a workspace root subscribes to.
pub open spec fn spec_workspace_event_mask() -> u32 {
    0x8000
}

/// The event mask bits a wrapper subscribes to: pointer-button motion,
/// exposure, substructure notifications, key presses and pointer entry.
pub open spec fn spec_wrapper_event_mask() -> u32 {
    0x98111
}

/// The event mask bits the screen root subscribes to: key presses,
/// substructure redirection, and focus changes.
pub open spec fn spec_root_event_mask() -> u32 {
    0x300001
}

/// The window manager: the per-screen workspaces, the shared graphics
/// context, the configuration, and the handle allocator.
pub struct WindowManager {
    pub workspaces: Vec<Workspace>,
    pub current_workspace: usize,
    pub gc: GraphicsContext,
    pub settings: Settings,
    pub tile_direction: TiledDirection,
    pub display: Vec<u8>,
    pub atom_net_wm_name: u32,
    pub id_alloc: ResourceAllocator,
    pub screens: Vec<crate::models::Screen>,
}

impl WindowManager {
    /// The manager's invariant: a valid current workspace, well-formed
    /// workspaces, a sound allocator, and at least one screen.
    pub open spec fn wf(self) -> bool {
        &&& (self.workspaces@.len() >= 1 ==> self.current_workspace < self.workspaces@.len())
        &&& (self.workspaces@.len() == 0 ==> self.current_workspace == 0)
        &&& (forall|i: int|
            0 <= i < self.workspaces@.len() ==> (#[trigger] self.workspaces@[i]).wf())
        &&& (forall|i: int|
            0 <= i < self.workspaces@.len() ==> (#[trigger] self.workspaces@[i]).screen
                < self.screens@.len())
        &&& self.id_alloc.wf()
        &&& self.screens@.len() >= 1
    }

    /// At most one window is focused in each workspace.
    pub open spec fn focus_ok(self) -> bool {
        forall|i: int|
            0 <= i < self.workspaces@.len() ==> count_focused(
                (#[trigger] self.workspaces@[i]).tiling@.windows(),
            ) <= 1
    }

    /// The fields a tree operation leaves alone.
    pub open spec fn same_but_workspaces(self, other: WindowManager) -> bool {
        &&& self.current_workspace == other.current_workspace
        &&& self.gc == other.gc
        &&& self.settings == other.settings
        &&& self.tile_direction == other.tile_direction
        &&& self.display == other.display
        &&& self.atom_net_wm_name == other.atom_net_wm_name
        &&& self.id_alloc == other.id_alloc
        &&& self.screens == other.screens
    }

    /// Re-tiles every workspace, appending the configure and repaint
    /// requests of each in workspace order; a clean workspace issues
    /// nothing.
    pub fn tile(&mut self, out: &mut Vec<Request>)
        requires
            old(self).wf(),
        ensures
            final(self).wf(),
            final(self).same_but_workspaces(*old(self)),
            final(self).workspaces@.len() == old(self).workspaces@.len(),
            forall|i: int|
                0 <= i < old(self).workspaces@.len() ==> {
                    let w0 = old(self).workspaces@[i];
                    let w1 = #[trigger] final(self).workspaces@[i];
                    &&& w1.id == w0.id
                    &&& w1.screen == w0.screen
                    &&& w1.window == w0.window
                    &&& w1.tiling@ == w0.tiling@.after_tile(false)
                },
            old(self).focus_ok() ==> final(self).focus_ok(),
            reqs_view(final(out)@) == reqs_view(old(out)@) + spec_tile_reqs(
                old(self).workspaces@,
            ),
    {
        let n = self.workspaces.len();
        let mut i: usize = 0;
        while i < n
            invariant
                i <= n,
                n == self.workspaces@.len(),
                n == old(self).workspaces@.len(),
                self.same_but_workspaces(*old(self)),
                self.screens@.len() >= 1,
                self.id_alloc.wf(),
                forall|k: int|
                    i <= k < n ==> #[trigger] self.workspaces@[k] == old(self).workspaces@[k],
                forall|k: int| 0 <= k < n ==> (#[trigger] old(self).workspaces@[k]).wf(),
                forall|k: int|
                    0 <= k < i ==> {
                        let w0 = old(self).workspaces@[k];
                        let w1 = #[trigger] self.workspaces@[k];
                        &&& w1.id == w0.id
                        &&& w1.screen == w0.screen
                        &&& w1.window == w0.window
                        &&& w1.tiling@ == w0.tiling@.after_tile(false)
                        &&& w1.wf()
                    },
                reqs_view(out@) == reqs_view(old(out)@) + spec_tile_reqs(
                    old(self).workspaces@.take(i as int),
                ),
            decreases n - i,
        {
            let mut w = self.workspaces.remove(i);
            let mut cmds: Vec<TileCommand> = Vec::new();
            w.tiling.tile(
                w.window.x,
                w.window.y,
                w.window.width,
                w.window.height,
                false,
                &mut cmds,
            );
            push_tile_requests(&cmds, out);
            self.workspaces.insert(i, w);
            i = i + 1;
            proof {
                lemma_tile_reqs_snoc(old(self).workspaces@, i as int - 1);
                assert(reqs_view(out@) =~= reqs_view(old(out)@) + spec_tile_reqs(
                    old(self).workspaces@.take(i as int),
                ));
            }
        }
        proof {
            assert(old(self).workspaces@.take(n as int) =~= old(self).workspaces@);
            assert forall|i2: int| 0 <= i2 < n implies count_focused(
                (#[trigger] self.workspaces@[i2]).tiling@.windows(),
            ) == count_focused(old(self).workspaces@[i2].tiling@.windows()) by {
                crate::tiling::lemma_after_tile_shape(
                    old(self).workspaces@[i2].tiling@,
                    false,
                );
            }
        }
    }
}

/// The first index of a workspace with the given identifier, or the
/// list length when none has it.
pub open spec fn spec_ws_index(ws: Seq<Workspace>, id: u32) -> int
    decreases ws.len(),
{
    if ws.len() == 0 {
        0
    } else if ws[0].id == id {
        0
    } else {
        1 + spec_ws_index(ws.drop_first(), id)
    }
}

/// The workspace index is the first position holding the identifier.
proof fn lemma_ws_index_first(ws: Seq<Workspace>, id: u32, j: int)
    requires
        0 <= j < ws.len(),
        ws[j].id == id,
        forall|k: int| 0 <= k < j ==> (#[trigger] ws[k]).id != id,
    ensures
        spec_ws_index(ws, id) == j,
    decreases j,
{
    if j > 0 {
        let t = ws.drop_first();
        assert(forall|k: int| 0 <= k < j - 1 ==> #[trigger] t[k] == ws[k + 1]);
        lemma_ws_index_first(t, id, j - 1);
    }
}

/// Without the identifier anywhere, the workspace index is the length.
proof fn lemma_ws_index_absent(ws: Seq<Workspace>, id: u32)
    requires
        forall|k: int| 0 <= k < ws.len() ==> (#[trigger] ws[k]).id != id,
    ensures
        spec_ws_index(ws, id) == ws.len(),
    decreases ws.len(),
{
    if ws.len() > 0 {
        let t = ws.drop_first();
        assert(forall|k: int| 0 <= k < t.len() ==> #[trigger] t[k] == ws[k + 1]);
        lemma_ws_index_absent(t, id);
    }
}

/// The first workspace whose tree holds a window answering to the
/// handle, or the list length when none does.
pub open spec fn spec_rename_idx(ws: Seq<Workspace>, wid: u32) -> int
    decreases ws.len(),
{
    if ws.len() == 0 {
        0
    } else if ws[0].tiling@.has_window(wid) {
        0
    } else {
        1 + spec_rename_idx(ws.drop_first(), wid)
    }
}

/// The rename index is the first position holding the window.
proof fn lemma_rename_idx_first(ws: Seq<Workspace>, wid: u32, j: int)
    requires
        0 <= j < ws.len(),
        ws[j].tiling@.has_window(wid),
        forall|k: int| 0 <= k < j ==> !(#[trigger] ws[k]).tiling@.has_window(wid),
    ensures
        spec_rename_idx(ws, wid) == j,
    decreases j,
{
    if j > 0 {
        let t = ws.drop_first();
        assert(forall|k: int| 0 <= k < j - 1 ==> #[trigger] t[k] == ws[k + 1]);
        lemma_rename_idx_first(t, wid, j - 1);
    }
}

/// Without the window anywhere, the rename index is the length.
proof fn lemma_rename_idx_absent(ws: Seq<Workspace>, wid: u32)
    requires
        forall|k: int| 0 <= k < ws.len() ==> !(#[trigger] ws[k]).tiling@.has_window(wid),
    ensures
        spec_rename_idx(ws, wid) == ws.len(),
    decreases ws.len(),
{
    if ws.len() > 0 {
        let t = ws.drop_first();
        assert(forall|k: int| 0 <= k < t.len() ==> #[trigger] t[k] == ws[k + 1]);
        lemma_rename_idx_absent(t, wid);
    }
}

/// The first focused window over all workspaces, in workspace order.
pub open spec fn spec_focused_window(ws: Seq<Workspace>) -> Option<ManagedWindow>
    decreases ws.len(),
{
    if ws.len() == 0 {
        None
    } else if spec_first_focused(ws[0].tiling@.windows()) is Some {
        spec_first_focused(ws[0].tiling@.windows())
    } else {
        spec_focused_window(ws.drop_first())
    }
}

/// The unmap requests a hide pass issues: one per workspace whose tree
/// holds the handle as a wrapper.
pub open spec fn spec_unmap_reqs(ws: Seq<Workspace>, wid: u32) -> Seq<ReqView>
    decreases ws.len(),
{
    if ws.len() == 0 {
        Seq::empty()
    } else {
        (match spec_find(ws[0].tiling@.windows(), wid) {
            Some(mw) => {
                if mw.wrapper.wid == wid {
                    seq![ReqView::UnmapWindow { wid }]
                } else {
                    Seq::empty()
                }
            },
            None => Seq::empty(),
        }) + spec_unmap_reqs(ws.drop_first(), wid)
    }
}

/// The destroy requests a removal pass issues: one for the wrapper of
/// each workspace's matching window.
pub open spec fn spec_destroy_reqs(ws: Seq<Workspace>, wid: u32) -> Seq<ReqView>
    decreases ws.len(),
{
    if ws.len() == 0 {
        Seq::empty()
    } else {
        (match spec_find(ws[0].tiling@.windows(), wid) {
            Some(mw) => seq![ReqView::DestroyWindow { wid: mw.wrapper.wid }],
            None => Seq::empty(),
        }) + spec_destroy_reqs(ws.drop_first(), wid)
    }
}

/// Extending the prefix by one workspace appends its unmap requests.
proof fn lemma_unmap_reqs_snoc(ws: Seq<Workspace>, wid: u32, i: int)
    requires
        0 <= i < ws.len(),
    ensures
        spec_unmap_reqs(ws.take(i + 1), wid) == spec_unmap_reqs(ws.take(i), wid) + (
        match spec_find(ws[i].tiling@.windows(), wid) {
            Some(mw) => {
                if mw.wrapper.wid == wid {
                    seq![ReqView::UnmapWindow { wid }]
                } else {
                    Seq::empty()
                }
            },
            None => Seq::empty(),
        }),
    decreases i,
{
    reveal_with_fuel(spec_unmap_reqs, 2);
    if i == 0 {
        assert(ws.take(0) =~= Seq::<Workspace>::empty());
        assert(ws.take(1).drop_first() =~= Seq::<Workspace>::empty());
        assert(spec_unmap_reqs(ws.take(0), wid) + (match spec_find(
            ws[0].tiling@.windows(),
            wid,
        ) {
            Some(mw) => {
                if mw.wrapper.wid == wid {
                    seq![ReqView::UnmapWindow { wid }]
                } else {
                    Seq::empty()
                }
            },
            None => Seq::empty(),
        }) =~= spec_unmap_reqs(ws.take(1), wid));
    } else {
        let t = ws.drop_first();
        lemma_unmap_reqs_snoc(t, wid, i - 1);
        assert(ws.take(i + 1).drop_first() =~= t.take(i));
        assert(ws.take(i).drop_first() =~= t.take(i - 1));
        assert(t[i - 1] == ws[i]);
    }
}

/// Extending the prefix by one workspace appends its destroy requests.
proof fn lemma_destroy_reqs_snoc(ws: Seq<Workspace>, wid: u32, i: int)
    requires
        0 <= i < ws.len(),
    ensures
        spec_destroy_reqs(ws.take(i + 1), wid) == spec_destroy_reqs(ws.take(i), wid) + (
        match spec_find(ws[i].tiling@.windows(), wid) {
            Some(mw) => seq![ReqView::DestroyWindow { wid: mw.wrapper.wid }],
            None => Seq::empty(),
        }),
    decreases i,
{
    reveal_with_fuel(spec_destroy_reqs, 2);
    if i == 0 {
        assert(ws.take(0) =~= Seq::<Workspace>::empty());
        assert(ws.take(1).drop_first() =~= Seq::<Workspace>::empty());
        assert(spec_destroy_reqs(ws.take(0), wid) + (match spec_find(
            ws[0].tiling@.windows(),
            wid,
        ) {
            Some(mw) => seq![ReqView::DestroyWindow { wid: mw.wrapper.wid }],
            None => Seq::empty(),
        }) =~= spec_destroy_reqs(ws.take(1), wid));
    } else {
        let t = ws.drop_first();
        lemma_destroy_reqs_snoc(t, wid, i - 1);
        assert(ws.take(i + 1).drop_first() =~= t.take(i));
        assert(ws.take(i).drop_first() =~= t.take(i - 1));
        assert(t[i - 1] == ws[i]);
    }
}

impl WindowManager {
    /// Makes the window answering to the handle focused in every
    /// workspace and unfocuses all others.  Reports whether any leaf
    /// matched.
    pub fn set_focused(&mut self, wid: u32) -> (found: bool)
        requires
            old(self).wf(),
        ensures
            final(self).wf(),
            final(self).same_but_workspaces(*old(self)),
            final(self).workspaces@.len() == old(self).workspaces@.len(),
            forall|i: int|
                0 <= i < old(self).workspaces@.len() ==> {
                    let w0 = old(self).workspaces@[i];
                    let w1 = #[trigger] final(self).workspaces@[i];
                    &&& w1.id == w0.id
                    &&& w1.screen == w0.screen
                    &&& w1.window == w0.window
                    &&& w1.tiling@ == w0.tiling@.refocus(wid)
                },
            found == exists|i: int|
                0 <= i < old(self).workspaces@.len() && seq_has_wid(
                    (#[trigger] old(self).workspaces@[i]).tiling@.windows(),
                    wid,
                ),
            (forall|i: int|
                0 <= i < old(self).workspaces@.len() ==> crate::tiling::count_matching(
                    (#[trigger] old(self).workspaces@[i]).tiling@.windows(),
                    wid,
                ) <= 1) ==> final(self).focus_ok(),
    {
        let n = self.workspaces.len();
        let mut i: usize = 0;
        let mut found = false;
        while i < n
            invariant
                i <= n,
                n == self.workspaces@.len(),
                n == old(self).workspaces@.len(),
                self.same_but_workspaces(*old(self)),
                self.screens@.len() >= 1,
                self.id_alloc.wf(),
                forall|k: int|
                    i <= k < n ==> #[trigger] self.workspaces@[k] == old(self).workspaces@[k],
                forall|k: int| 0 <= k < n ==> (#[trigger] old(self).workspaces@[k]).wf(),
                forall|k: int|
                    0 <= k < i ==> {
                        let w0 = old(self).workspaces@[k];
                        let w1 = #[trigger] self.workspaces@[k];
                        &&& w1.id == w0.id
                        &&& w1.screen == w0.screen
                        &&& w1.window == w0.window
                        &&& w1.tiling@ == w0.tiling@.refocus(wid)
                        &&& w1.wf()
                    },
                found == exists|k: int|
                    0 <= k < i && seq_has_wid(
                        (#[trigger] old(self).workspaces@[k]).tiling@.windows(),
                        wid,
                    ),
            decreases n - i,
        {
            let mut w = self.workspaces.remove(i);
            let f = w.tiling.set_focused(wid);
            proof {
                crate::tiling::lemma_refocus_offsets(old(self).workspaces@[i as int].tiling@, wid);
            }
            self.workspaces.insert(i, w);
            if f {
                found = true;
            }
            i = i + 1;
        }
        proof {
            assert forall|i2: int| 0 <= i2 < n implies count_focused(
                (#[trigger] self.workspaces@[i2]).tiling@.windows(),
            ) == crate::tiling::count_matching(
                old(self).workspaces@[i2].tiling@.windows(),
                wid,
            ) by {
                crate::tiling::lemma_refocus_count(old(self).workspaces@[i2].tiling@, wid);
            }
        }
        found
    }

    /// The currently focused window, searching workspaces in order.
    pub fn get_focused(&self) -> (r: Option<&ManagedWindow>)
        requires
            self.wf(),
        ensures
            (match r {
                Some(w) => spec_focused_window(self.workspaces@) == Some(*w),
                None => spec_focused_window(self.workspaces@) is None,
            }),
    {
        let n = self.workspaces.len();
        let mut i: usize = 0;
        proof {
            assert(self.workspaces@.skip(0) =~= self.workspaces@);
        }
        while i < n
            invariant
                i <= n,
                n == self.workspaces@.len(),
                self.wf(),
                spec_focused_window(self.workspaces@) == spec_focused_window(
                    self.workspaces@.skip(i as int),
                ),
            decreases n - i,
        {
            proof {
                assert(self.workspaces@.skip(i as int)[0] == self.workspaces@[i as int]);
                assert(self.workspaces@.skip(i as int).drop_first() =~= self.workspaces@.skip(
                    i as int + 1,
                ));
            }
            let r = self.workspaces[i].tiling.get_focused();
            match r {
                Some(w) => {
                    return Some(w);
                },
                None => {},
            }
            i = i + 1;
        }
        proof {
            assert(self.workspaces@.skip(n as int) =~= Seq::<Workspace>::empty());
        }
        None
    }

    /// Switches to the given workspace: the old current root is hidden
    /// and the new one shown.  Fails without effect when the index is
    /// out of range.
    pub fn set_workspace(&mut self, workspace: usize, out: &mut Vec<Request>) -> (ok: bool)
        requires
            old(self).wf(),
        ensures
            final(self).wf(),
            ok == (workspace < old(self).workspaces@.len()),
            ok ==> *final(self) == (WindowManager {
                current_workspace: workspace,
                ..*old(self)
            }) && reqs_view(final(out)@) == reqs_view(old(out)@) + seq![
                ReqView::UnmapWindow {
                    wid: old(self).workspaces@[old(self).current_workspace as int].window.wid,
                },
                ReqView::MapWindow { wid: old(self).workspaces@[workspace as int].window.wid },
            ],
            !ok ==> *final(self) == *old(self) && final(out)@ == old(out)@,
            old(self).focus_ok() ==> final(self).focus_ok(),
    {
        if workspace >= self.workspaces.len() {
            return false;
        }
        let old_wid = self.workspaces[self.current_workspace].window.wid;
        out.push(Request::UnmapWindow { wid: old_wid });
        self.current_workspace = workspace;
        let new_wid = self.workspaces[self.current_workspace].window.wid;
        out.push(Request::MapWindow { wid: new_wid });
        proof {
            assert(reqs_view(out@) =~= reqs_view(old(out)@) + seq![
                ReqView::UnmapWindow {
                    wid: old(self).workspaces@[old(self).current_workspace as int].window.wid,
                },
                ReqView::MapWindow { wid: old(self).workspaces@[workspace as int].window.wid },
            ]);
        }
        true
    }

    /// What a successful workspace creation does: a fresh full-screen
    /// container window on the given screen — its geometry, depth and
    /// visual taken from that screen's record, sizes clamped to the
    /// signed 16-bit coordinate space — with a newly allocated handle,
    /// an empty tree, and a switch that makes the new workspace
    /// current, hiding the old root and showing the new one.
    pub open spec fn spec_created_workspace(
        pre: WindowManager,
        post: WindowManager,
        id: u32,
        screen: int,
        out0: Seq<ReqView>,
        out1: Seq<ReqView>,
    ) -> bool {
        let ws = post.workspaces@;
        let neww = ws[ws.len() - 1];
        let scr = pre.screens@[screen];
        &&& ws.len() == pre.workspaces@.len() + 1
        &&& ws.take(ws.len() - 1) == pre.workspaces@
        &&& neww.id == id
        &&& neww.screen == screen
        &&& neww.tiling@ == (crate::tiling::TileView::Split {
            kids: Seq::<crate::tiling::TileView>::empty(),
            direction: pre.tile_direction,
            offset: 0i16,
            dirty: true,
        })
        &&& post.id_alloc.issued() == pre.id_alloc.issued().push(neww.window.wid)
        &&& neww.window.parent == scr.root
        &&& neww.window.depth == scr.root_depth
        &&& neww.window.visual_id == scr.root_visual
        &&& neww.window.width == (if scr.width_in_pixels > 0x7FFF {
            0x7FFF
        } else {
            scr.width_in_pixels
        })
        &&& neww.window.height == (if scr.height_in_pixels > 0x7FFF {
            0x7FFF
        } else {
            scr.height_in_pixels
        })
        &&& neww.window.x == 0
        &&& neww.window.y == 0
        &&& neww.window.border_width == 0
        &&& neww.window.class == WindowInputType::CopyFromParent
        &&& neww.window.values@ == seq![
            crate::models::WindowValue::EventMask(spec_workspace_event_mask()),
        ]
        &&& post.current_workspace == ws.len() - 1
        &&& post.gc == pre.gc
        &&& post.settings == pre.settings
        &&& post.tile_direction == pre.tile_direction
        &&& post.display == pre.display
        &&& post.atom_net_wm_name == pre.atom_net_wm_name
        &&& post.screens == pre.screens
        &&& out1 == out0 + seq![
            ReqView::CreateWindow(crate::codec::window_image(neww.window)),
            ReqView::UnmapWindow {
                wid: if pre.workspaces@.len() == 0 {
                    neww.window.wid
                } else {
                    pre.workspaces@[pre.current_workspace as int].window.wid
                },
            },
            ReqView::MapWindow { wid: neww.window.wid },
        ]
    }

    /// Creates an empty workspace on the given screen and switches to
    /// it.  Succeeds exactly when no workspace has the identifier yet
    /// and the handle space is not exhausted; a failure has no effect.
    pub fn create_workspace(&mut self, id: u32, screen: usize, out: &mut Vec<Request>) -> (ok:
        bool)
        requires
            old(self).wf(),
            screen < old(self).screens@.len(),
        ensures
            final(self).wf(),
            old(self).focus_ok() ==> final(self).focus_ok(),
            ok == (!(exists|i: int|
                0 <= i < old(self).workspaces@.len() && (#[trigger] old(self).workspaces@[i]).id
                    == id) && !old(self).id_alloc.spec_exhausted()),
            ok ==> WindowManager::spec_created_workspace(
                *old(self),
                *final(self),
                id,
                screen as int,
                reqs_view(old(out)@),
                reqs_view(final(out)@),
            ),
            !ok ==> *final(self) == *old(self) && final(out)@ == old(out)@,
    {
        let n = self.workspaces.len();
        let mut i: usize = 0;
        while i < n
            invariant
                i <= n,
                n == self.workspaces@.len(),
                *self == *old(self),
                old(self).wf(),
                forall|k: int| 0 <= k < i ==> (#[trigger] self.workspaces@[k]).id != id,
            decreases n - i,
        {
            if self.workspaces[i].id == id {
                proof {
                    assert(self.workspaces@ == old(self).workspaces@);
                    assert forall|k: int|
                        0 <= k < self.workspaces@.len() implies (
                    #[trigger] self.workspaces@[k]).wf() by {
                        assert(self.workspaces@[k] == old(self).workspaces@[k]);
                    }
                    assert(self.wf());
                }
                return false;
            }
            i = i + 1;
        }
        let wid = match self.id_alloc.allocate() {
            Some(w) => w,
            None => {
                proof {
                    assert(self.workspaces@ == old(self).workspaces@);
                    assert forall|k: int|
                        0 <= k < self.workspaces@.len() implies (
                    #[trigger] self.workspaces@[k]).wf() by {
                        assert(self.workspaces@[k] == old(self).workspaces@[k]);
                    }
                    assert(self.wf());
                }
                return false;
            },
        };
        let scr = &self.screens[screen];
        let width = if scr.width_in_pixels > 0x7FFF {
            0x7FFF
        } else {
            scr.width_in_pixels
        };
        let height = if scr.height_in_pixels > 0x7FFF {
            0x7FFF
        } else {
            scr.height_in_pixels
        };
        let mut values: Vec<crate::models::WindowValue> = Vec::new();
        values.push(crate::models::WindowValue::EventMask(0x8000));
        let window = Window {
            depth: scr.root_depth,
            wid,
            parent: scr.root,
            x: 0,
            y: 0,
            width,
            height,
            border_width: 0,
            class: WindowInputType::CopyFromParent,
            visual_id: scr.root_visual,
            values,
        };
        let ghost created_image = crate::codec::window_image(window);
        out.push(Request::CreateWindow(window_copy(&window)));
        let ghost m0 = reqs_view(out@);
        proof {
            assert(m0 =~= reqs_view(old(out)@).push(ReqView::CreateWindow(created_image)));
        }
        let tiling = Tiled::new_0(self.tile_direction);
        self.workspaces.push(Workspace { id, screen, window, tiling });
        let new_index = self.workspaces.len() - 1;
        let ok = self.set_workspace(new_index, out);
        proof {
            assert(ok);
            let ws = self.workspaces@;
            let neww = ws[ws.len() - 1];
            assert(ws.take(ws.len() - 1) =~= old(self).workspaces@);
            assert(reqs_view(out@) =~= reqs_view(old(out)@) + seq![
                ReqView::CreateWindow(crate::codec::window_image(neww.window)),
                ReqView::UnmapWindow {
                    wid: if old(self).workspaces@.len() == 0 {
                        neww.window.wid
                    } else {
                        old(self).workspaces@[old(self).current_workspace as int].window.wid
                    },
                },
                ReqView::MapWindow { wid: neww.window.wid },
            ]);
        }
        true
    }
}

/// The requests a repaint pass issues and the color it leaves applied:
/// the first workspace whose root answers to the handle has its
/// background filled; otherwise the first whose tree holds the handle
/// as a wrapper has that window's decoration painted.
pub open spec fn spec_paint_window(
    ws: Seq<Workspace>,
    wid: u32,
    fg0: Option<u32>,
    cid: u32,
    s: Settings,
) -> (Seq<ReqView>, Option<u32>)
    decreases ws.len(),
{
    if ws.len() == 0 {
        (Seq::empty(), fg0)
    } else if ws[0].window.wid == wid {
        (ws[0].spec_paint_background(fg0, cid, s), Some(s.background_color.pixel))
    } else {
        match spec_find(ws[0].tiling@.windows(), wid) {
            Some(mw) => {
                if mw.wrapper.wid == wid {
                    spec_paint(mw, fg0, cid, s)
                } else {
                    spec_paint_window(ws.drop_first(), wid, fg0, cid, s)
                }
            },
            None => spec_paint_window(ws.drop_first(), wid, fg0, cid, s),
        }
    }
}

impl WindowManager {
    /// Adopts a foreign window into the current workspace: a wrapper
    /// is created over it, the window is reparented inside and both
    /// are mapped, the tree gains the pair at the focused leaf, and
    /// every workspace is re-tiled.  Returns the wrapper's handle, or
    /// nothing (with no effect) when the handle space is exhausted.
    pub fn add_window(
        &mut self,
        window: Window,
        parent: Window,
        name: Vec<u8>,
        out: &mut Vec<Request>,
    ) -> (r: Option<u32>)
        requires
            old(self).wf(),
            old(self).focus_ok(),
            old(self).workspaces@.len() >= 1,
        ensures
            final(self).wf(),
            final(self).focus_ok(),
            final(self).workspaces@.len() == old(self).workspaces@.len(),
            final(self).current_workspace == old(self).current_workspace,
            final(self).settings == old(self).settings,
            final(self).gc == old(self).gc,
            final(self).tile_direction == old(self).tile_direction,
            final(self).display == old(self).display,
            final(self).atom_net_wm_name == old(self).atom_net_wm_name,
            final(self).screens == old(self).screens,
            r is Some == !old(self).id_alloc.spec_exhausted(),
            r is None ==> final(self).workspaces == old(self).workspaces
                && final(self).current_workspace == old(self).current_workspace
                && final(self).id_alloc == old(self).id_alloc && final(out)@ == old(out)@,
            r matches Some(wrapper_wid) ==> {
                let cur = old(self).current_workspace as int;
                let ws0 = old(self).workspaces@;
                &&& final(self).id_alloc.issued() == old(self).id_alloc.issued().push(wrapper_wid)
                &&& forall|i: int|
                    0 <= i < ws0.len() ==> {
                        let w1 = #[trigger] final(self).workspaces@[i];
                        &&& w1.id == ws0[i].id
                        &&& w1.screen == ws0[i].screen
                        &&& w1.window == ws0[i].window
                    }
                &&& forall|i: int|
                    0 <= i < ws0.len() && i != cur ==> (
                    #[trigger] final(self).workspaces@[i]).tiling@ == ws0[i].tiling@.after_tile(
                        false,
                    )
                &&& exists|mw: ManagedWindow|
                    {
                        &&& mw.window == window
                        &&& mw.parent == parent
                        &&& mw.name == name
                        &&& mw.focused == false
                        &&& mw.wrapper.wid == wrapper_wid
                        &&& mw.wrapper.parent == ws0[cur].window.wid
                        &&& mw.wrapper.depth == window.depth
                        &&& mw.wrapper.x == window.x
                        &&& mw.wrapper.y == window.y
                        &&& mw.wrapper.width == window.width
                        &&& mw.wrapper.height == (if window.height <= 65515 {
                            (window.height + 20) as u16
                        } else {
                            65535u16
                        })
                        &&& mw.wrapper.border_width == 0
                        &&& mw.wrapper.class == window.class
                        &&& mw.wrapper.visual_id == 0
                        &&& mw.wrapper.values@ == seq![
                            crate::models::WindowValue::EventMask(spec_wrapper_event_mask()),
                            crate::models::WindowValue::Colormap(0),
                        ]
                        &&& (#[trigger] final(self).workspaces@[cur]).tiling@ == ws0[cur].tiling@.spec_add(
                            mw,
                            old(self).tile_direction,
                        ).after_tile(false)
                        &&& reqs_view(final(out)@) == reqs_view(old(out)@) + seq![
                            ReqView::CreateWindow(crate::codec::window_image(mw.wrapper)),
                            ReqView::SelectEvents { wid: window.wid, event_mask: 0x400000 },
                            ReqView::ReparentWindow {
                                window: window.wid,
                                parent: wrapper_wid,
                                x: 0i16,
                                y: 20i16,
                            },
                            ReqView::MapWindow { wid: window.wid },
                            ReqView::MapWindow { wid: wrapper_wid },
                        ] + spec_tile_reqs_with(
                            ws0,
                            cur,
                            ws0[cur].tiling@.spec_add(mw, old(self).tile_direction),
                        )
                    }
            },
    {
        let cur = self.current_workspace;
        let wrapper_wid = match self.id_alloc.allocate() {
            Some(w) => w,
            None => {
                proof {
                    assert(self.workspaces@ == old(self).workspaces@);
                    assert forall|k: int|
                        0 <= k < self.workspaces@.len() implies (
                    #[trigger] self.workspaces@[k]).wf() by {
                        assert(self.workspaces@[k] == old(self).workspaces@[k]);
                    }
                }
                return None;
            },
        };
        let wrapper_height = if window.height <= 65515 {
            window.height + 20
        } else {
            65535
        };
        let mut wvalues: Vec<crate::models::WindowValue> = Vec::new();
        wvalues.push(crate::models::WindowValue::EventMask(0x98111));
        wvalues.push(crate::models::WindowValue::Colormap(0x0));
        let ws_root_wid = self.workspaces[cur].window.wid;
        let wrapper = Window {
            depth: window.depth,
            wid: wrapper_wid,
            parent: ws_root_wid,
            x: window.x,
            y: window.y,
            width: window.width,
            height: wrapper_height,
            border_width: 0,
            class: window.class,
            visual_id: 0,
            values: wvalues,
        };
        let window_wid = window.wid;
        let ghost wrapper_image = crate::codec::window_image(wrapper);
        out.push(Request::CreateWindow(window_copy(&wrapper)));
        out.push(Request::SelectEvents { wid: window_wid, event_mask: 0x400000 });
        out.push(Request::ReparentWindow { window: window_wid, parent: wrapper_wid, x: 0, y: 20 });
        out.push(Request::MapWindow { wid: window_wid });
        out.push(Request::MapWindow { wid: wrapper_wid });
        let ghost m5 = reqs_view(out@);
        proof {
            assert(m5 =~= reqs_view(old(out)@) + seq![
                ReqView::CreateWindow(wrapper_image),
                ReqView::SelectEvents { wid: window.wid, event_mask: 0x400000 },
                ReqView::ReparentWindow {
                    window: window.wid,
                    parent: wrapper_wid,
                    x: 0i16,
                    y: 20i16,
                },
                ReqView::MapWindow { wid: window.wid },
                ReqView::MapWindow { wid: wrapper_wid },
            ]);
        }
        let mw = ManagedWindow { window, wrapper, focused: false, parent, name };
        let mut w = self.workspaces.remove(cur);
        proof {
            crate::tiling::lemma_wf_view(w.tiling);
            crate::tiling::lemma_add_keeps_one_focused(
                w.tiling@,
                mw,
                old(self).tile_direction,
            );
            crate::tiling::lemma_add_offsets(w.tiling@, mw, old(self).tile_direction);
        }
        let ghost mwg = mw;
        w.tiling.add(mw, self.tile_direction);
        self.workspaces.insert(cur, w);
        let ghost mid = self.workspaces@;
        self.tile(out);
        proof {
            assert(mwg.window == window && mwg.parent == parent && mwg.name == name
                && mwg.focused == false && mwg.wrapper.wid == wrapper_wid);
            let ghost t = old(self).workspaces@[cur as int].tiling@.spec_add(
                mwg,
                old(self).tile_direction,
            );
            assert(self.workspaces@[cur as int].tiling@ == t.after_tile(false));
            lemma_tile_reqs_with_congruence(mid, old(self).workspaces@, cur as int, t);
            assert(reqs_view(out@) =~= reqs_view(old(out)@) + seq![
                ReqView::CreateWindow(crate::codec::window_image(mwg.wrapper)),
                ReqView::SelectEvents { wid: window.wid, event_mask: 0x400000 },
                ReqView::ReparentWindow {
                    window: window.wid,
                    parent: wrapper_wid,
                    x: 0i16,
                    y: 20i16,
                },
                ReqView::MapWindow { wid: window.wid },
                ReqView::MapWindow { wid: wrapper_wid },
            ] + spec_tile_reqs_with(old(self).workspaces@, cur as int, t));
        }
        Some(wrapper_wid)
    }
}

/// The per-workspace startup requests, from position `i` on: each
/// workspace's container is created, the previous current root
/// unmapped — the first workspace unmaps itself — and the new root
/// mapped.
pub open spec fn spec_startup_chunks(ws: Seq<Workspace>, i: int) -> Seq<ReqView>
    decreases ws.len() - i,
{
    if i < 0 || i >= ws.len() {
        Seq::empty()
    } else {
        seq![
            ReqView::CreateWindow(crate::codec::window_image(ws[i].window)),
            ReqView::UnmapWindow {
                wid: if i == 0 {
                    ws[0].window.wid
                } else {
                    ws[i - 1].window.wid
                },
            },
            ReqView::MapWindow { wid: ws[i].window.wid },
        ] + spec_startup_chunks(ws, i + 1)
    }
}

/// Extending the workspace list by one appends its startup chunk.
proof fn lemma_startup_chunks_snoc(ws: Seq<Workspace>, i: int)
    requires
        ws.len() >= 1,
        0 <= i <= ws.len() - 1,
    ensures
        spec_startup_chunks(ws, i) == spec_startup_chunks(ws.take(ws.len() - 1), i) + seq![
            ReqView::CreateWindow(crate::codec::window_image(ws[ws.len() - 1].window)),
            ReqView::UnmapWindow {
                wid: if ws.len() == 1 {
                    ws[0].window.wid
                } else {
                    ws[ws.len() - 2].window.wid
                },
            },
            ReqView::MapWindow { wid: ws[ws.len() - 1].window.wid },
        ],
    decreases ws.len() - i,
{
    reveal_with_fuel(spec_startup_chunks, 2);
    let t = ws.take(ws.len() - 1);
    if i == ws.len() - 1 {
        assert(spec_startup_chunks(t, i) =~= Seq::<ReqView>::empty());
        assert(spec_startup_chunks(ws, i) =~= seq![
            ReqView::CreateWindow(crate::codec::window_image(ws[i].window)),
            ReqView::UnmapWindow {
                wid: if i == 0 {
                    ws[0].window.wid
                } else {
                    ws[i - 1].window.wid
                },
            },
            ReqView::MapWindow { wid: ws[i].window.wid },
        ]);
    } else {
        lemma_startup_chunks_snoc(ws, i + 1);
        assert(t[i] == ws[i]);
        assert(i == 0 || t[i - 1] == ws[i - 1]);
        assert(spec_startup_chunks(ws, i) =~= spec_startup_chunks(t, i) + seq![
            ReqView::CreateWindow(crate::codec::window_image(ws[ws.len() - 1].window)),
            ReqView::UnmapWindow {
                wid: if ws.len() == 1 {
                    ws[0].window.wid
                } else {
                    ws[ws.len() - 2].window.wid
                },
            },
            ReqView::MapWindow { wid: ws[ws.len() - 1].window.wid },
        ]);
    }
}

impl WindowManager {
    /// Builds the manager after the handshake: it creates the shared
    /// graphics context in the first screen's black, subscribes the
    /// first screen's root to key presses, substructure redirection
    /// and focus changes, and creates one workspace per screen, the
    /// last becoming current.  Returns nothing when the handle space
    /// cannot supply the needed identifiers.
    pub fn new(
        screens: Vec<crate::models::Screen>,
        resource_id_base: u32,
        resource_id_mask: u32,
        display: Vec<u8>,
        atom_net_wm_name: u32,
        out: &mut Vec<Request>,
    ) -> (r: Option<WindowManager>)
        requires
            1 <= screens@.len() <= 255,
        ensures
            (match r {
                Some(m) => {
                    &&& m.wf()
                    &&& m.focus_ok()
                    &&& m.settings == Settings::spec_default()
                    &&& m.tile_direction == TiledDirection::Vertical
                    &&& m.display == display
                    &&& m.atom_net_wm_name == atom_net_wm_name
                    &&& m.screens == screens
                    &&& m.workspaces@.len() == screens@.len()
                    &&& m.current_workspace == m.workspaces@.len() - 1
                    &&& m.gc.drawable == screens@[0].root
                    &&& m.gc.foreground is None
                    &&& m.gc.values@ == Seq::<crate::models::GraphicsContextValue>::empty()
                    &&& m.id_alloc.issued().len() == screens@.len() + 1
                    &&& m.id_alloc.issued()[0] == m.gc.cid
                    &&& (forall|i: int|
                        0 <= i < m.workspaces@.len() ==> {
                            let w = #[trigger] m.workspaces@[i];
                            let scr = screens@[i];
                            &&& w.id == i + 1
                            &&& w.screen == i
                            &&& m.id_alloc.issued()[i + 1] == w.window.wid
                            &&& w.window.parent == scr.root
                            &&& w.window.depth == scr.root_depth
                            &&& w.window.visual_id == scr.root_visual
                            &&& w.window.width == (if scr.width_in_pixels > 0x7FFF {
                                0x7FFF
                            } else {
                                scr.width_in_pixels
                            })
                            &&& w.window.height == (if scr.height_in_pixels > 0x7FFF {
                                0x7FFF
                            } else {
                                scr.height_in_pixels
                            })
                            &&& w.window.x == 0
                            &&& w.window.y == 0
                            &&& w.window.border_width == 0
                            &&& w.window.class == WindowInputType::CopyFromParent
                            &&& w.window.values@ == seq![
                                crate::models::WindowValue::EventMask(spec_workspace_event_mask()),
                            ]
                            &&& w.tiling@ == (crate::tiling::TileView::Split {
                                kids: Seq::<crate::tiling::TileView>::empty(),
                                direction: TiledDirection::Vertical,
                                offset: 0i16,
                                dirty: true,
                            })
                        })
                    &&& reqs_view(final(out)@) == reqs_view(old(out)@) + seq![
                        ReqView::CreateGc {
                            cid: m.gc.cid,
                            drawable: screens@[0].root,
                            foreground: screens@[0].black_pixel,
                            background: screens@[0].black_pixel,
                        },
                        ReqView::SelectEvents {
                            wid: screens@[0].root,
                            event_mask: spec_root_event_mask(),
                        },
                    ] + spec_startup_chunks(m.workspaces@, 0)
                },
                None => true,
            }),
    {
        let mut id_alloc = ResourceAllocator::new(resource_id_base, resource_id_mask);
        let cid = match id_alloc.allocate() {
            Some(c) => c,
            None => {
                return None;
            },
        };
        let root = screens[0].root;
        let black = screens[0].black_pixel;
        out.push(Request::CreateGc { cid, drawable: root, foreground: black, background: black });
        out.push(Request::SelectEvents { wid: root, event_mask: 0x300001 });
        let ghost mark = reqs_view(out@);
        proof {
            assert(mark =~= reqs_view(old(out)@) + seq![
                ReqView::CreateGc {
                    cid,
                    drawable: screens@[0].root,
                    foreground: screens@[0].black_pixel,
                    background: screens@[0].black_pixel,
                },
                ReqView::SelectEvents { wid: screens@[0].root, event_mask: 0x300001 },
            ]);
        }
        let gc = GraphicsContext { cid, drawable: root, values: Vec::new(), foreground: None };
        let mut manager = WindowManager {
            workspaces: Vec::new(),
            current_workspace: 0,
            gc,
            settings: Settings::default(),
            tile_direction: TiledDirection::Vertical,
            display,
            atom_net_wm_name,
            id_alloc,
            screens,
        };
        let n = manager.screens.len();
        let mut i: usize = 0;
        let mut ok = true;
        while i < n && ok
            invariant
                i <= n,
                n == manager.screens@.len(),
                1 <= n <= 255,
                manager.wf(),
                manager.focus_ok(),
                manager.settings == Settings::spec_default(),
                manager.tile_direction == TiledDirection::Vertical,
                manager.display == display,
                manager.atom_net_wm_name == atom_net_wm_name,
                manager.screens == screens,
                ok ==> manager.workspaces@.len() == i,
                ok ==> manager.current_workspace == (if i == 0 {
                    0int
                } else {
                    i - 1
                }),
                manager.gc.cid == cid,
                manager.gc.drawable == screens@[0].root,
                manager.gc.foreground is None,
                manager.gc.values@ == Seq::<crate::models::GraphicsContextValue>::empty(),
                ok ==> manager.id_alloc.issued().len() == 1 + manager.workspaces@.len(),
                manager.id_alloc.issued()[0] == cid,
                forall|k: int|
                    0 <= k < manager.workspaces@.len() ==> {
                        let w = #[trigger] manager.workspaces@[k];
                        let scr = screens@[k];
                        &&& w.id == k + 1
                        &&& w.screen == k
                        &&& manager.id_alloc.issued()[k + 1] == w.window.wid
                        &&& w.window.parent == scr.root
                        &&& w.window.depth == scr.root_depth
                        &&& w.window.visual_id == scr.root_visual
                        &&& w.window.width == (if scr.width_in_pixels > 0x7FFF {
                            0x7FFF
                        } else {
                            scr.width_in_pixels
                        })
                        &&& w.window.height == (if scr.height_in_pixels > 0x7FFF {
                            0x7FFF
                        } else {
                            scr.height_in_pixels
                        })
                        &&& w.window.x == 0
                        &&& w.window.y == 0
                        &&& w.window.border_width == 0
                        &&& w.window.class == WindowInputType::CopyFromParent
                        &&& w.window.values@ == seq![
                            crate::models::WindowValue::EventMask(spec_workspace_event_mask()),
                        ]
                        &&& w.tiling@ == (crate::tiling::TileView::Split {
                            kids: Seq::<crate::tiling::TileView>::empty(),
                            direction: TiledDirection::Vertical,
                            offset: 0i16,
                            dirty: true,
                        })
                    },
                ok ==> reqs_view(out@) == mark + spec_startup_chunks(manager.workspaces@, 0),
            decreases n - i,
        {
            let ghost before = reqs_view(out@);
            let created = manager.create_workspace((i + 1) as u32, i, out);
            if !created {
                ok = false;
            } else {
                proof {
                    let ws = manager.workspaces@;
                    assert(forall|k: int|
                        0 <= k < ws.len() - 1 ==> #[trigger] ws[k] == ws.take(ws.len() - 1)[k]);
                    lemma_startup_chunks_snoc(ws, 0);
                    assert(reqs_view(out@) =~= mark + spec_startup_chunks(ws, 0));
                }
            }
            i = i + 1;
        }
        if !ok {
            return None;
        }
        proof {
            assert(reqs_view(out@) =~= reqs_view(old(out)@) + seq![
                ReqView::CreateGc {
                    cid: manager.gc.cid,
                    drawable: screens@[0].root,
                    foreground: screens@[0].black_pixel,
                    background: screens@[0].black_pixel,
                },
                ReqView::SelectEvents { wid: screens@[0].root, event_mask: 0x300001 },
            ] + spec_startup_chunks(manager.workspaces@, 0));
        }
        Some(manager)
    }
}

impl WindowManager {
    /// Hides the wrapper of the matching managed window in every
    /// workspace that tracks it; the windows stay tracked.
    pub fn unmap_window(&mut self, wid: u32, out: &mut Vec<Request>)
        requires
            old(self).wf(),
        ensures
            *final(self) == *old(self),
            reqs_view(final(out)@) == reqs_view(old(out)@) + spec_unmap_reqs(
                old(self).workspaces@,
                wid,
            ),
    {
        let n = self.workspaces.len();
        let mut i: usize = 0;
        while i < n
            invariant
                i <= n,
                n == self.workspaces@.len(),
                self == old(self),
                old(self).wf(),
                reqs_view(out@) == reqs_view(old(out)@) + spec_unmap_reqs(
                    old(self).workspaces@.take(i as int),
                    wid,
                ),
            decreases n - i,
        {
            let found = match self.workspaces[i].tiling.get_window(wid) {
                Some(mw) => mw.wrapper.wid == wid,
                None => false,
            };
            let ghost before = reqs_view(out@);
            if found {
                out.push(Request::UnmapWindow { wid });
            }
            i = i + 1;
            proof {
                if found {
                    assert(reqs_view(out@) =~= before.push(ReqView::UnmapWindow { wid }));
                } else {
                    assert(reqs_view(out@) =~= before);
                }
                lemma_unmap_reqs_snoc(old(self).workspaces@, wid, i as int - 1);
                assert(reqs_view(out@) =~= reqs_view(old(out)@) + spec_unmap_reqs(
                    old(self).workspaces@.take(i as int),
                    wid,
                ));
            }
        }
        proof {
            assert(old(self).workspaces@.take(n as int) =~= old(self).workspaces@);
        }
    }

    /// Destroys the wrapper of the matching managed window in every
    /// workspace that tracks it and removes the window from the trees.
    pub fn destroy_window(&mut self, wid: u32, out: &mut Vec<Request>)
        requires
            old(self).wf(),
            old(self).focus_ok(),
        ensures
            final(self).wf(),
            final(self).focus_ok(),
            final(self).same_but_workspaces(*old(self)),
            final(self).workspaces@.len() == old(self).workspaces@.len(),
            forall|i: int|
                0 <= i < old(self).workspaces@.len() ==> {
                    let w0 = old(self).workspaces@[i];
                    let w1 = #[trigger] final(self).workspaces@[i];
                    &&& w1.id == w0.id
                    &&& w1.screen == w0.screen
                    &&& w1.window == w0.window
                    &&& w1.tiling@ == w0.tiling@.spec_remove(wid).0
                },
            reqs_view(final(out)@) == reqs_view(old(out)@) + spec_destroy_reqs(
                old(self).workspaces@,
                wid,
            ),
    {
        let n = self.workspaces.len();
        let mut i: usize = 0;
        while i < n
            invariant
                i <= n,
                n == self.workspaces@.len(),
                n == old(self).workspaces@.len(),
                self.same_but_workspaces(*old(self)),
                self.screens@.len() >= 1,
                self.id_alloc.wf(),
                forall|k: int|
                    i <= k < n ==> #[trigger] self.workspaces@[k] == old(self).workspaces@[k],
                forall|k: int| 0 <= k < n ==> (#[trigger] old(self).workspaces@[k]).wf(),
                forall|k: int|
                    0 <= k < n ==> count_focused(
                        (#[trigger] old(self).workspaces@[k]).tiling@.windows(),
                    ) <= 1,
                forall|k: int|
                    0 <= k < i ==> {
                        let w0 = old(self).workspaces@[k];
                        let w1 = #[trigger] self.workspaces@[k];
                        &&& w1.id == w0.id
                        &&& w1.screen == w0.screen
                        &&& w1.window == w0.window
                        &&& w1.tiling@ == w0.tiling@.spec_remove(wid).0
                        &&& w1.wf()
                        &&& count_focused(w1.tiling@.windows()) <= 1
                    },
                reqs_view(out@) == reqs_view(old(out)@) + spec_destroy_reqs(
                    old(self).workspaces@.take(i as int),
                    wid,
                ),
            decreases n - i,
        {
            let mut w = self.workspaces.remove(i);
            let wrapper_wid = match w.tiling.get_window(wid) {
                Some(mw) => Some(mw.wrapper.wid),
                None => None,
            };
            let ghost before = reqs_view(out@);
            match wrapper_wid {
                Some(ww) => {
                    out.push(Request::DestroyWindow { wid: ww });
                    proof {
                        assert(reqs_view(out@) =~= before.push(
                            ReqView::DestroyWindow { wid: ww },
                        ));
                        crate::tiling::lemma_wf_view(w.tiling);
                        crate::tiling::lemma_remove_offsets(w.tiling@, wid);
                        crate::tiling::lemma_remove_keeps_focus_bound(w.tiling@, wid);
                    }
                    w.tiling.remove(wid);
                },
                None => {
                    proof {
                        assert(w.tiling@.remove_node(wid).1 == false) by {
                            crate::tiling::lemma_wf_view(w.tiling);
                            lemma_absent_not_removed(w.tiling@, wid);
                        }
                    }
                },
            }
            self.workspaces.insert(i, w);
            i = i + 1;
            proof {
                lemma_destroy_reqs_snoc(old(self).workspaces@, wid, i as int - 1);
                assert(reqs_view(out@) =~= reqs_view(old(out)@) + spec_destroy_reqs(
                    old(self).workspaces@.take(i as int),
                    wid,
                ));
            }
        }
        proof {
            assert(old(self).workspaces@.take(n as int) =~= old(self).workspaces@);
        }
    }

    /// Repaints what the handle names: a workspace root gets its
    /// background filled, a wrapper gets its decoration repainted; the
    /// first match in workspace order wins.
    pub fn paint_window(&mut self, wid: u32, out: &mut Vec<Request>)
        requires
            old(self).wf(),
        ensures
            final(self).workspaces == old(self).workspaces,
            final(self).current_workspace == old(self).current_workspace,
            final(self).settings == old(self).settings,
            final(self).tile_direction == old(self).tile_direction,
            final(self).display == old(self).display,
            final(self).atom_net_wm_name == old(self).atom_net_wm_name,
            final(self).id_alloc == old(self).id_alloc,
            final(self).screens == old(self).screens,
            final(self).gc.cid == old(self).gc.cid,
            final(self).gc.drawable == old(self).gc.drawable,
            final(self).gc.values == old(self).gc.values,
            reqs_view(final(out)@) == reqs_view(old(out)@) + spec_paint_window(
                old(self).workspaces@,
                wid,
                old(self).gc.foreground,
                old(self).gc.cid,
                old(self).settings,
            ).0,
            final(self).gc.foreground == spec_paint_window(
                old(self).workspaces@,
                wid,
                old(self).gc.foreground,
                old(self).gc.cid,
                old(self).settings,
            ).1,
    {
        let n = self.workspaces.len();
        let mut i: usize = 0;
        proof {
            assert(self.workspaces@.skip(0) =~= self.workspaces@);
        }
        while i < n
            invariant
                i <= n,
                n == self.workspaces@.len(),
                self == old(self),
                old(self).wf(),
                out@ == old(out)@,
                spec_paint_window(
                    self.workspaces@,
                    wid,
                    self.gc.foreground,
                    self.gc.cid,
                    self.settings,
                ) == spec_paint_window(
                    self.workspaces@.skip(i as int),
                    wid,
                    self.gc.foreground,
                    self.gc.cid,
                    self.settings,
                ),
            decreases n - i,
        {
            proof {
                assert(self.workspaces@.skip(i as int)[0] == self.workspaces@[i as int]);
                assert(self.workspaces@.skip(i as int).drop_first() =~= self.workspaces@.skip(
                    i as int + 1,
                ));
            }
            if self.workspaces[i].window.wid == wid {
                proof {
                    assert(spec_paint_window(
                        self.workspaces@.skip(i as int),
                        wid,
                        self.gc.foreground,
                        self.gc.cid,
                        self.settings,
                    ) == (
                        self.workspaces@[i as int].spec_paint_background(
                            self.gc.foreground,
                            self.gc.cid,
                            self.settings,
                        ),
                        Some(self.settings.background_color.pixel),
                    ));
                }
                let ws = &self.workspaces[i];
                ws.paint_background(&mut self.gc, &self.settings, out);
                return ;
            }
            let do_paint = match self.workspaces[i].tiling.get_window(wid) {
                Some(mw) => mw.wrapper.wid == wid,
                None => false,
            };
            if do_paint {
                match self.workspaces[i].tiling.get_window(wid) {
                    Some(mw) => {
                        proof {
                            assert(spec_paint_window(
                                self.workspaces@.skip(i as int),
                                wid,
                                self.gc.foreground,
                                self.gc.cid,
                                self.settings,
                            ) == spec_paint(*mw, self.gc.foreground, self.gc.cid, self.settings));
                        }
                        mw.paint(&mut self.gc, &self.settings, out);
                        return ;
                    },
                    None => {},
                }
            }
            i = i + 1;
        }
        proof {
            assert(self.workspaces@.skip(n as int) =~= Seq::<Workspace>::empty());
            assert(reqs_view(out@) =~= reqs_view(old(out)@) + Seq::<ReqView>::empty());
        }
    }
}

impl WindowManager {
    /// Completes a map request once the caller has fetched both
    /// windows and the title: the window is adopted into the current
    /// workspace — wrapped, reparented, mapped and tiled — and then
    /// focused everywhere by its own handle.  Returns the wrapper's
    /// handle, or nothing (with no effect) when the handle space is
    /// exhausted.
    pub fn complete_map_request(
        &mut self,
        window: Window,
        parent: Window,
        name: Vec<u8>,
        out: &mut Vec<Request>,
    ) -> (r: Option<u32>)
        requires
            old(self).wf(),
            old(self).focus_ok(),
            old(self).workspaces@.len() >= 1,
        ensures
            final(self).wf(),
            final(self).current_workspace == old(self).current_workspace,
            final(self).settings == old(self).settings,
            final(self).gc == old(self).gc,
            final(self).tile_direction == old(self).tile_direction,
            final(self).display == old(self).display,
            final(self).atom_net_wm_name == old(self).atom_net_wm_name,
            final(self).screens == old(self).screens,
            r is Some == !old(self).id_alloc.spec_exhausted(),
            r is None ==> *final(self) == *old(self) && final(out)@ == old(out)@,
            r matches Some(wrapper_wid) ==> {
                let cur = old(self).current_workspace as int;
                let ws0 = old(self).workspaces@;
                &&& final(self).workspaces@.len() == ws0.len()
                &&& final(self).id_alloc.issued() == old(self).id_alloc.issued().push(wrapper_wid)
                &&& forall|i: int|
                    0 <= i < ws0.len() ==> {
                        let w1 = #[trigger] final(self).workspaces@[i];
                        &&& w1.id == ws0[i].id
                        &&& w1.screen == ws0[i].screen
                        &&& w1.window == ws0[i].window
                    }
                &&& forall|i: int|
                    0 <= i < ws0.len() && i != cur ==> (
                    #[trigger] final(self).workspaces@[i]).tiling@ == ws0[i].tiling@.after_tile(
                        false,
                    ).refocus(window.wid)
                &&& exists|mw: ManagedWindow|
                    {
                        &&& mw.window == window
                        &&& mw.parent == parent
                        &&& mw.name == name
                        &&& mw.focused == false
                        &&& mw.wrapper.wid == wrapper_wid
                        &&& mw.wrapper.parent == ws0[cur].window.wid
                        &&& mw.wrapper.height == (if window.height <= 65515 {
                            (window.height + 20) as u16
                        } else {
                            65535u16
                        })
                        &&& mw.wrapper.width == window.width
                        &&& (#[trigger] final(self).workspaces@[cur]).tiling@ == ws0[cur].tiling@.spec_add(
                            mw,
                            old(self).tile_direction,
                        ).after_tile(false).refocus(window.wid)
                        &&& reqs_view(final(out)@) == reqs_view(old(out)@) + seq![
                            ReqView::CreateWindow(crate::codec::window_image(mw.wrapper)),
                            ReqView::SelectEvents { wid: window.wid, event_mask: 0x400000 },
                            ReqView::ReparentWindow {
                                window: window.wid,
                                parent: wrapper_wid,
                                x: 0i16,
                                y: 20i16,
                            },
                            ReqView::MapWindow { wid: window.wid },
                            ReqView::MapWindow { wid: wrapper_wid },
                        ] + spec_tile_reqs_with(
                            ws0,
                            cur,
                            ws0[cur].tiling@.spec_add(mw, old(self).tile_direction),
                        )
                    }
            },
    {
        let wid = window.wid;
        let ghost win0 = window;
        let ghost parent0 = parent;
        let ghost name0 = name;
        let r = self.add_window(window, parent, name, out);
        match r {
            Some(wrapper_wid) => {
                let ghost mid = *self;
                let ghost mid_out = out@;
                self.set_focused(wid);
                proof {
                    let cur = old(self).current_workspace as int;
                    let ws0 = old(self).workspaces@;
                    let mw = choose|mw: ManagedWindow|
                        {
                            &&& mw.window == win0
                            &&& mw.parent == parent0
                            &&& mw.name == name0
                            &&& mw.focused == false
                            &&& mw.wrapper.wid == wrapper_wid
                            &&& mw.wrapper.parent == ws0[cur].window.wid
                            &&& mw.wrapper.depth == win0.depth
                            &&& mw.wrapper.x == win0.x
                            &&& mw.wrapper.y == win0.y
                            &&& mw.wrapper.width == win0.width
                            &&& mw.wrapper.height == (if win0.height <= 65515 {
                                (win0.height + 20) as u16
                            } else {
                                65535u16
                            })
                            &&& mw.wrapper.border_width == 0
                            &&& mw.wrapper.class == win0.class
                            &&& mw.wrapper.visual_id == 0
                            &&& mw.wrapper.values@ == seq![
                                crate::models::WindowValue::EventMask(spec_wrapper_event_mask()),
                                crate::models::WindowValue::Colormap(0),
                            ]
                            &&& (#[trigger] mid.workspaces@[cur]).tiling@ == ws0[cur].tiling@.spec_add(
                                mw,
                                old(self).tile_direction,
                            ).after_tile(false)
                            &&& reqs_view(mid_out) == reqs_view(old(out)@) + seq![
                                ReqView::CreateWindow(crate::codec::window_image(mw.wrapper)),
                                ReqView::SelectEvents { wid: win0.wid, event_mask: 0x400000 },
                                ReqView::ReparentWindow {
                                    window: win0.wid,
                                    parent: wrapper_wid,
                                    x: 0i16,
                                    y: 20i16,
                                },
                                ReqView::MapWindow { wid: win0.wid },
                                ReqView::MapWindow { wid: wrapper_wid },
                            ] + spec_tile_reqs_with(
                                ws0,
                                cur,
                                ws0[cur].tiling@.spec_add(mw, old(self).tile_direction),
                            )
                        };
                    assert(self.workspaces@[cur].tiling@ == ws0[cur].tiling@.spec_add(
                        mw,
                        old(self).tile_direction,
                    ).after_tile(false).refocus(win0.wid));
                }
            },
            None => {
                proof {
                    assert(*self == *old(self));
                }
            },
        }
        r
    }

    /// Updates the display name of the window answering to the handle:
    /// the first workspace, in order, whose tree holds the window gets
    /// the new name, and when asked to, that window's decoration is
    /// repainted.  Nothing happens when no tracked window answers.
    pub fn complete_window_name(
        &mut self,
        wid: u32,
        name: Vec<u8>,
        repaint: bool,
        out: &mut Vec<Request>,
    )
        requires
            old(self).wf(),
            old(self).focus_ok(),
        ensures
            final(self).wf(),
            final(self).focus_ok(),
            final(self).same_but_workspaces_and_gc(*old(self)),
            final(self).gc.cid == old(self).gc.cid,
            final(self).gc.drawable == old(self).gc.drawable,
            final(self).gc.values == old(self).gc.values,
            final(self).workspaces@.len() == old(self).workspaces@.len(),
            ({
                let ws0 = old(self).workspaces@;
                let idx = spec_rename_idx(ws0, wid);
                &&& forall|i: int|
                    0 <= i < ws0.len() ==> {
                        let w1 = #[trigger] final(self).workspaces@[i];
                        &&& w1.id == ws0[i].id
                        &&& w1.screen == ws0[i].screen
                        &&& w1.window == ws0[i].window
                        &&& w1.tiling@ == (if i == idx {
                            ws0[i].tiling@.rename(wid, name).0
                        } else {
                            ws0[i].tiling@
                        })
                    }
                &&& ((idx < ws0.len() && repaint) ==> (match crate::tiling::spec_find(
                    ws0[idx].tiling@.rename(wid, name).0.windows(),
                    wid,
                ) {
                    Some(mw) => reqs_view(final(out)@) == reqs_view(old(out)@) + spec_paint(
                        mw,
                        old(self).gc.foreground,
                        old(self).gc.cid,
                        old(self).settings,
                    ).0 && final(self).gc.foreground == spec_paint(
                        mw,
                        old(self).gc.foreground,
                        old(self).gc.cid,
                        old(self).settings,
                    ).1,
                    None => final(out)@ == old(out)@ && final(self).gc == old(self).gc,
                }))
                &&& (!(idx < ws0.len() && repaint) ==> final(out)@ == old(out)@ && final(self).gc
                    == old(self).gc)
            }),
    {
        let n = self.workspaces.len();
        let mut i: usize = 0;
        let mut found = false;
        let mut name_opt = Some(name);
        while i < n && !found
            invariant_except_break
                i <= n,
                !found,
                n == self.workspaces@.len(),
                n == old(self).workspaces@.len(),
                old(self).wf(),
                old(self).focus_ok(),
                self.same_but_workspaces_and_gc(*old(self)),
                self.gc == old(self).gc,
                out@ == old(out)@,
                self.wf(),
                self.focus_ok(),
                name_opt == Some(name),
                forall|k: int|
                    i <= k < n ==> #[trigger] self.workspaces@[k] == old(self).workspaces@[k],
                forall|k: int|
                    0 <= k < i ==> {
                        let w0 = old(self).workspaces@[k];
                        let w1 = #[trigger] self.workspaces@[k];
                        &&& w1.id == w0.id
                        &&& w1.screen == w0.screen
                        &&& w1.window == w0.window
                        &&& w1.tiling@ == w0.tiling@
                    },
                forall|k: int|
                    0 <= k < i ==> !(#[trigger] old(self).workspaces@[k]).tiling@.has_window(wid),
            ensures
                self.wf(),
                self.focus_ok(),
                self.same_but_workspaces_and_gc(*old(self)),
                self.gc.cid == old(self).gc.cid,
                self.gc.drawable == old(self).gc.drawable,
                self.gc.values == old(self).gc.values,
                n == self.workspaces@.len(),
                !found ==> i == n && out@ == old(out)@ && self.gc == old(self).gc && (forall|
                    k: int,
                |
                    0 <= k < n ==> {
                        let w0 = old(self).workspaces@[k];
                        let w1 = #[trigger] self.workspaces@[k];
                        &&& w1.id == w0.id
                        &&& w1.screen == w0.screen
                        &&& w1.window == w0.window
                        &&& w1.tiling@ == w0.tiling@
                    }) && (forall|k: int|
                    0 <= k < n ==> !(#[trigger] old(self).workspaces@[k]).tiling@.has_window(wid)),
                found ==> {
                    let ws0 = old(self).workspaces@;
                    &&& 0 <= i < n
                    &&& spec_rename_idx(ws0, wid) == i
                    &&& (forall|k: int|
                        0 <= k < n ==> {
                            let w0 = ws0[k];
                            let w1 = #[trigger] self.workspaces@[k];
                            &&& w1.id == w0.id
                            &&& w1.screen == w0.screen
                            &&& w1.window == w0.window
                            &&& w1.tiling@ == (if k == i {
                                w0.tiling@.rename(wid, name).0
                            } else {
                                w0.tiling@
                            })
                        })
                    &&& (repaint ==> (match crate::tiling::spec_find(
                        ws0[i as int].tiling@.rename(wid, name).0.windows(),
                        wid,
                    ) {
                        Some(mw) => reqs_view(out@) == reqs_view(old(out)@) + spec_paint(
                            mw,
                            old(self).gc.foreground,
                            old(self).gc.cid,
                            old(self).settings,
                        ).0 && self.gc.foreground == spec_paint(
                            mw,
                            old(self).gc.foreground,
                            old(self).gc.cid,
                            old(self).settings,
                        ).1,
                        None => out@ == old(out)@ && self.gc == old(self).gc,
                    }))
                    &&& (!repaint ==> out@ == old(out)@ && self.gc == old(self).gc)
                },
            decreases n - i,
        {
            let nm = match name_opt {
                Some(nm) => nm,
                None => {
                    proof {
                        assert(false);
                    }
                    break ;
                },
            };
            let mut w = self.workspaces.remove(i);
            proof {
                crate::tiling::lemma_rename_shape(w.tiling@, wid, nm);
                crate::tiling::lemma_rename_found(w.tiling@, wid, nm);
            }
            let back = w.tiling.set_window_name(wid, nm);
            match back {
                Some(nm2) => {
                    name_opt = Some(nm2);
                    self.workspaces.insert(i, w);
                    i = i + 1;
                },
                None => {
                    found = true;
                    proof {
                        lemma_rename_idx_first(old(self).workspaces@, wid, i as int);
                    }
                    if repaint {
                        match w.tiling.get_window(wid) {
                            Some(mw) => {
                                mw.paint(&mut self.gc, &self.settings, out);
                            },
                            None => {},
                        }
                    }
                    self.workspaces.insert(i, w);
                    break ;
                },
            }
        }
        proof {
            if !found {
                lemma_rename_idx_absent(old(self).workspaces@, wid);
            }
        }
    }

    /// The fields a tree-and-paint operation leaves alone.
    pub open spec fn same_but_workspaces_and_gc(self, other: WindowManager) -> bool {
        &&& self.current_workspace == other.current_workspace
        &&& self.settings == other.settings
        &&& self.tile_direction == other.tile_direction
        &&& self.display == other.display
        &&& self.atom_net_wm_name == other.atom_net_wm_name
        &&& self.id_alloc == other.id_alloc
        &&& self.screens == other.screens
    }

    /// What a key press does, case by case.  Without the configured
    /// modifier nothing happens.  With it: the digit keys name a
    /// workspace, switching to it when it exists and creating it on the
    /// current workspace's screen when it does not; two letter keys set
    /// the split direction for later additions; one key asks the caller
    /// to start the helper process; one key with shift disconnects the
    /// focused window's client; everything else is ignored.
    pub open spec fn spec_key_press_post(
        pre: WindowManager,
        post: WindowManager,
        key_code: u8,
        state: u16,
        out0: Seq<ReqView>,
        out1: Seq<ReqView>,
        r: Option<Followup>,
    ) -> bool {
        let modmask = pre.settings.mod_key.spec_val() as u16;
        &&& (state & modmask == 0 ==> post == pre && out1 == out0 && r is None)
        &&& (state & modmask != 0 ==> {
            &&& (10 <= key_code <= 18 ==> {
                let id = (key_code - 9) as u32;
                let idx = spec_ws_index(pre.workspaces@, id);
                &&& r is None
                &&& (idx < pre.workspaces@.len() ==> post == (WindowManager {
                    current_workspace: idx as usize,
                    ..pre
                }) && out1 == out0 + seq![
                    ReqView::UnmapWindow {
                        wid: pre.workspaces@[pre.current_workspace as int].window.wid,
                    },
                    ReqView::MapWindow { wid: pre.workspaces@[idx].window.wid },
                ])
                &&& (idx == pre.workspaces@.len() ==> {
                    &&& (pre.id_alloc.spec_exhausted() ==> post == pre && out1 == out0)
                    &&& (!pre.id_alloc.spec_exhausted()
                        ==> WindowManager::spec_created_workspace(
                        pre,
                        post,
                        id,
                        if pre.workspaces@.len() == 0 {
                            0int
                        } else {
                            pre.workspaces@[pre.current_workspace as int].screen as int
                        },
                        out0,
                        out1,
                    ))
                })
            })
            &&& (key_code == 43 ==> post == (WindowManager {
                tile_direction: TiledDirection::Horizontal,
                ..pre
            }) && out1 == out0 && r is None)
            &&& (key_code == 55 ==> post == (WindowManager {
                tile_direction: TiledDirection::Vertical,
                ..pre
            }) && out1 == out0 && r is None)
            &&& (key_code == 36 ==> post == pre && out1 == out0 && r == Some(
                Followup::SpawnHelper,
            ))
            &&& ((key_code == 24 && state & 1 != 0) ==> post == pre && r is None && (
            match spec_focused_window(pre.workspaces@) {
                Some(mw) => out1 == out0 + seq![ReqView::KillClient { resource: mw.window.wid }],
                None => out1 == out0,
            }))
            &&& ((!(10 <= key_code <= 18) && key_code != 43 && key_code != 55 && key_code != 36
                && !(key_code == 24 && state & 1 != 0)) ==> post == pre && out1 == out0
                && r is None)
        })
    }

    /// Acts on a key press, as `spec_key_press_post` lays out: the
    /// digit keys switch to the named workspace or create it on the
    /// current workspace's screen, two letter keys set the split
    /// direction for later additions, one key asks the caller to start
    /// the helper process, and one key with shift disconnects the
    /// focused window's client.  Anything else, and any press without
    /// the configured modifier, is ignored.
    pub fn handle_key_press(&mut self, key_code: u8, state: u16, out: &mut Vec<Request>) -> (r:
        Option<Followup>)
        requires
            old(self).wf(),
            old(self).focus_ok(),
        ensures
            final(self).wf(),
            final(self).focus_ok(),
            WindowManager::spec_key_press_post(
                *old(self),
                *final(self),
                key_code,
                state,
                reqs_view(old(out)@),
                reqs_view(final(out)@),
                r,
            ),
    {
        let modmask = self.settings.mod_key.val() as u16;
        if state & modmask == 0 {
            return None;
        }
        if key_code >= 10 && key_code <= 18 {
            let id = key_code as u32 - 9;
            let n = self.workspaces.len();
            let mut index = n;
            let mut i: usize = 0;
            while i < n
                invariant_except_break
                    i <= n,
                    n == self.workspaces@.len(),
                    *self == *old(self),
                    old(self).wf(),
                    old(self).focus_ok(),
                    index == n,
                    forall|k: int| 0 <= k < i ==> (#[trigger] self.workspaces@[k]).id != id,
                ensures
                    *self == *old(self),
                    n == self.workspaces@.len(),
                    index <= n,
                    index == n ==> forall|k: int|
                        0 <= k < n ==> (#[trigger] self.workspaces@[k]).id != id,
                    index < n ==> spec_ws_index(old(self).workspaces@, id) == index,
                decreases n - i,
            {
                if self.workspaces[i].id == id {
                    index = i;
                    proof {
                        lemma_ws_index_first(old(self).workspaces@, id, i as int);
                    }
                    break ;
                }
                i = i + 1;
            }
            if index == n {
                proof {
                    lemma_ws_index_absent(old(self).workspaces@, id);
                }
                let scr = if self.workspaces.len() > 0 {
                    self.workspaces[self.current_workspace].screen
                } else {
                    0
                };
                self.create_workspace(id, scr, out);
                proof {
                    assert(id == (key_code - 9) as u32);
                    assert(spec_ws_index(old(self).workspaces@, id)
                        == old(self).workspaces@.len());
                    if old(self).id_alloc.spec_exhausted() {
                        assert(*self == *old(self) && reqs_view(out@) == reqs_view(old(out)@));
                    } else {
                        assert(WindowManager::spec_created_workspace(
                            *old(self),
                            *self,
                            id,
                            if old(self).workspaces@.len() == 0 {
                                0int
                            } else {
                                old(self).workspaces@[old(self).current_workspace as int].screen as int
                            },
                            reqs_view(old(out)@),
                            reqs_view(out@),
                        ));
                    }
                }
            } else {
                self.set_workspace(index, out);
                proof {
                    assert(id == (key_code - 9) as u32);
                    assert(*self == (WindowManager {
                        current_workspace: spec_ws_index(old(self).workspaces@, id) as usize,
                        ..*old(self)
                    }));
                    assert(reqs_view(out@) == reqs_view(old(out)@) + seq![
                        ReqView::UnmapWindow {
                            wid: old(self).workspaces@[old(self).current_workspace as int].window.wid,
                        },
                        ReqView::MapWindow {
                            wid: old(self).workspaces@[spec_ws_index(
                                old(self).workspaces@,
                                id,
                            )].window.wid,
                        },
                    ]);
                }
            }
            None
        } else if key_code == 43 {
            self.tile_direction = TiledDirection::Horizontal;
            None        } else if key_code == 43 {
            self.tile_direction = TiledDirection::Horizontal;
            None
        } else if key_code == 55 {
            self.tile_direction = TiledDirection::Vertical;
            None
        } else if key_code == 36 {
            Some(Followup::SpawnHelper)
        } else if key_code == 24 && state & 1 != 0 {
            let wid = match self.get_focused() {
                Some(mw) => Some(mw.window.wid),
                None => None,
            };
            match wid {
                Some(w) => {
                    out.push(Request::KillClient { resource: w });
                    proof {
                        assert(reqs_view(out@) =~= reqs_view(old(out)@) + seq![
                            ReqView::KillClient { resource: w },
                        ]);
                    }
                },
                None => {},
            }
            None
        } else {
            None
        }
    }

    /// Routes one decoded event: a map request and a title change ask
    /// the caller to fetch state first; pointer entry refocuses and
    /// re-tiles; a key press is dispatched; an expose repaints; unmap
    /// and destroy notifications hide or drop the window.  Every other
    /// event is ignored without any state change.
    pub fn handle_event(&mut self, event: &ServerEvent, out: &mut Vec<Request>) -> (r: Option<
        Followup,
    >)
        requires
            old(self).wf(),
            old(self).focus_ok(),
        ensures
            final(self).wf(),
            event matches ServerEvent::MapRequest { parent, window } ==> *final(self) == *old(self)
                && final(out)@ == old(out)@ && r == Some(Followup::AdoptWindow { parent: *parent, window: *window }),
            event matches ServerEvent::PropertyNotify { window, atom, .. } ==> *final(self)
                == *old(self) && final(out)@ == old(out)@ && r == (if *atom == spec_wm_name_atom()
                || *atom == old(self).atom_net_wm_name {
                Some(Followup::FetchWindowName { wid: *window })
            } else {
                None
            }),
            event is Other ==> *final(self) == *old(self) && final(out)@ == old(out)@ && r is None,
            event matches ServerEvent::EnterNotify { event: wid, .. } ==> {
                let ws0 = old(self).workspaces@;
                &&& r is None
                &&& final(self).same_but_workspaces(*old(self))
                &&& final(self).workspaces@.len() == ws0.len()
                &&& (forall|i: int|
                    0 <= i < ws0.len() ==> {
                        let w1 = #[trigger] final(self).workspaces@[i];
                        &&& w1.id == ws0[i].id
                        &&& w1.screen == ws0[i].screen
                        &&& w1.window == ws0[i].window
                        &&& w1.tiling@ == ws0[i].tiling@.refocus(*wid).after_tile(false)
                    })
                &&& reqs_view(final(out)@) == reqs_view(old(out)@) + spec_tile_reqs_refocused(
                    ws0,
                    *wid,
                )
            },
            event matches ServerEvent::KeyPress { key_code, state, .. }
                ==> WindowManager::spec_key_press_post(
                *old(self),
                *final(self),
                *key_code,
                *state,
                reqs_view(old(out)@),
                reqs_view(final(out)@),
                r,
            ),
            event matches ServerEvent::Expose { window, .. } ==> {
                &&& r is None
                &&& final(self).workspaces == old(self).workspaces
                &&& final(self).same_but_workspaces_and_gc(*old(self))
                &&& final(self).gc.cid == old(self).gc.cid
                &&& final(self).gc.drawable == old(self).gc.drawable
                &&& final(self).gc.values == old(self).gc.values
                &&& reqs_view(final(out)@) == reqs_view(old(out)@) + spec_paint_window(
                    old(self).workspaces@,
                    *window,
                    old(self).gc.foreground,
                    old(self).gc.cid,
                    old(self).settings,
                ).0
                &&& final(self).gc.foreground == spec_paint_window(
                    old(self).workspaces@,
                    *window,
                    old(self).gc.foreground,
                    old(self).gc.cid,
                    old(self).settings,
                ).1
            },
            event matches ServerEvent::UnmapNotify { window, .. } ==> r is None && *final(self)
                == *old(self) && reqs_view(final(out)@) == reqs_view(old(out)@) + spec_unmap_reqs(
                old(self).workspaces@,
                *window,
            ),
            event matches ServerEvent::DestroyNotify { window, .. } ==> {
                let ws0 = old(self).workspaces@;
                &&& r is None
                &&& final(self).same_but_workspaces(*old(self))
                &&& final(self).workspaces@.len() == ws0.len()
                &&& (forall|i: int|
                    0 <= i < ws0.len() ==> {
                        let w1 = #[trigger] final(self).workspaces@[i];
                        &&& w1.id == ws0[i].id
                        &&& w1.screen == ws0[i].screen
                        &&& w1.window == ws0[i].window
                        &&& w1.tiling@ == ws0[i].tiling@.spec_remove(*window).0.after_tile(false)
                    })
                &&& reqs_view(final(out)@) == reqs_view(old(out)@) + spec_destroy_reqs(
                    ws0,
                    *window,
                ) + spec_tile_reqs_removed(ws0, *window)
            },
            (event is EnterNotify || event is DestroyNotify || event is UnmapNotify || event
                is Expose || event is KeyPress) ==> (forall|i: int|
                0 <= i < final(self).workspaces@.len() ==> crate::tiling::count_matching(
                    (#[trigger] old(self).workspaces@[i]).tiling@.windows(),
                    spec_event_wid(*event),
                ) <= 1) ==> final(self).focus_ok(),
    {
        match event {
            ServerEvent::MapRequest { parent, window } => Some(
                Followup::AdoptWindow { parent: *parent, window: *window },
            ),
            ServerEvent::EnterNotify { event: ewid, .. } => {
                self.set_focused(*ewid);
                let ghost mid = self.workspaces@;
                self.tile(out);
                proof {
                    lemma_tile_reqs_refocused_congruence(mid, old(self).workspaces@, *ewid);
                }
                None
            },
            ServerEvent::KeyPress { key_code, state, .. } => {
                let r = self.handle_key_press(*key_code, *state, out);
                r
            },
            ServerEvent::PropertyNotify { window, atom, .. } => {
                if *atom == 39 || *atom == self.atom_net_wm_name {
                    Some(Followup::FetchWindowName { wid: *window })
                } else {
                    None
                }
            },
            ServerEvent::Expose { window, .. } => {
                self.paint_window(*window, out);
                proof {
                    assert forall|k: int|
                        0 <= k < self.workspaces@.len() implies (
                    #[trigger] self.workspaces@[k]).wf() by {
                        assert(self.workspaces@[k] == old(self).workspaces@[k]);
                    }
                }
                None
            },
            ServerEvent::UnmapNotify { window, .. } => {
                self.unmap_window(*window, out);
                None
            },
            ServerEvent::DestroyNotify { window, .. } => {
                self.destroy_window(*window, out);
                let ghost mid = self.workspaces@;
                let ghost m1 = reqs_view(out@);
                self.tile(out);
                proof {
                    lemma_tile_reqs_removed_congruence(mid, old(self).workspaces@, *window);
                    assert(reqs_view(out@) =~= reqs_view(old(out)@) + spec_destroy_reqs(
                        old(self).workspaces@,
                        *window,
                    ) + spec_tile_reqs_removed(old(self).workspaces@, *window));
                }
                None
            },
            ServerEvent::Other { .. } => None,
        }
    }
}

/// The window handle an event acts on, where one does.
pub open spec fn spec_event_wid(e: ServerEvent) -> u32 {
    match e {
        ServerEvent::EnterNotify { event, .. } => event,
        ServerEvent::DestroyNotify { window, .. } => window,
        ServerEvent::UnmapNotify { window, .. } => window,
        ServerEvent::Expose { window, .. } => window,
        ServerEvent::MapRequest { window, .. } => window,
        ServerEvent::PropertyNotify { window, .. } => window,
        ServerEvent::KeyPress { .. } => 0,
        ServerEvent::Other { .. } => 0,
    }
}

/// A tree that does not hold the handle removes nothing.
proof fn lemma_absent_not_removed(v: crate::tiling::TileView, wid: u32)
    requires
        v.root_wf(),
        spec_find(v.windows(), wid) is None,
    ensures
        !v.remove_node(wid).1,
{
    let kids = v->Split_kids;
    if kids.len() >= 1 {
        lemma_find_append_split(v, wid);
    }
}

/// Node-level search and removal agree: a subtree without the handle
/// removes nothing.
proof fn lemma_absent_not_removed_sub(v: crate::tiling::TileView, wid: u32)
    requires
        v.subtree_wf(),
        spec_find(v.windows(), wid) is None,
    ensures
        !v.remove_node(wid).1,
    decreases v,
{
    match v {
        crate::tiling::TileView::Leaf(_) => {
            reveal_with_fuel(spec_find, 2);
        },
        crate::tiling::TileView::Split { kids, .. } => {
            crate::tiling::lemma_find_append(kids[0].windows(), kids[1].windows(), wid);
            lemma_absent_not_removed_sub(kids[0], wid);
            lemma_absent_not_removed_sub(kids[1], wid);
            reveal_with_fuel(spec_find, 2);
            if kids[0] is Leaf {
                assert(kids[0].windows() =~= seq![kids[0]->0]);
            }
            if kids[1] is Leaf {
                assert(kids[1].windows() =~= seq![kids[1]->0]);
            }
        },
    }
}

/// The root-level case of the search/removal agreement.
proof fn lemma_find_append_split(v: crate::tiling::TileView, wid: u32)
    requires
        v.root_wf(),
        v->Split_kids.len() >= 1,
        spec_find(v.windows(), wid) is None,
    ensures
        !v.remove_node(wid).1,
{
    let kids = v->Split_kids;
    reveal_with_fuel(spec_find, 2);
    if kids.len() >= 2 {
        crate::tiling::lemma_find_append(kids[0].windows(), kids[1].windows(), wid);
        lemma_absent_not_removed_sub(kids[0], wid);
        lemma_absent_not_removed_sub(kids[1], wid);
        if kids[0] is Leaf {
            assert(kids[0].windows() =~= seq![kids[0]->0]);
        }
        if kids[1] is Leaf {
            assert(kids[1].windows() =~= seq![kids[1]->0]);
        }
    } else {
        lemma_absent_not_removed_sub(kids[0], wid);
        if kids[0] is Leaf {
            assert(kids[0].windows() =~= seq![kids[0]->0]);
        }
    }
}

/// Copies a window record field for field.
fn window_copy(w: &Window) -> (r: Window)
    ensures
        crate::codec::window_image(r) == crate::codec::window_image(*w),
        r.values@ == w.values@,
{
    let mut values: Vec<crate::models::WindowValue> = Vec::new();
    let n = w.values.len();
    let mut i: usize = 0;
    while i < n
        invariant
            i <= n,
            n == w.values.len(),
            values@ == w.values@.take(i as int),
        decreases n - i,
    {
        let v = w.values[i];
        values.push(v);
        i = i + 1;
        proof {
            assert(values@ =~= w.values@.take(i as int));
        }
    }
    proof {
        assert(w.values@.take(n as int) =~= w.values@);
    }
    Window {
        depth: w.depth,
        wid: w.wid,
        parent: w.parent,
        x: w.x,
        y: w.y,
        width: w.width,
        height: w.height,
        border_width: w.border_width,
        class: w.class,
        visual_id: w.visual_id,
        values,
    }
}

} // verus!
