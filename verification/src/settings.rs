//! Static configuration: the modifier key and the decoration colors
//! and border widths.  Each value is a paint-time parameter only.

use vstd::prelude::*;

use crate::models::Color;
use crate::models::KeyButton;

verus! {

/// The manager's configuration surface.
#[derive(Debug, Clone, Copy, PartialEq, Eq, Structural)]
pub struct Settings {
    pub mod_key: KeyButton,
    pub background_color: Color,
    pub win_bg: Color,
    pub win_bg_focused: Color,
    pub win_border_width_left: u16,
    pub win_border_width_top: u16,
    pub win_border_width_right: u16,
    pub win_border_width_bottom: u16,
    pub win_border_color: Color,
    pub win_border_color_focused: Color,
    pub win_title_bg: Color,
    pub win_title_fg: Color,
    pub win_title_bg_focused: Color,
    pub win_title_fg_focused: Color,
    pub win_title_border_width_left: u16,
    pub win_title_border_width_top: u16,
    pub win_title_border_width_right: u16,
    pub win_title_border_width_bottom: u16,
    pub win_title_border_color: Color,
    pub win_title_border_color_focused: Color,
}

impl Settings {
    /// The stock configuration as a value.
    pub open spec fn spec_default() -> Settings {
        Settings {
            mod_key: KeyButton::Mod4,
            background_color: Color { pixel: 0x444444 },
            win_bg: Color { pixel: 0x000000 },
            win_bg_focused: Color { pixel: 0x000000 },
            win_border_width_left: 0,
            win_border_width_top: 0,
            win_border_width_right: 0,
            win_border_width_bottom: 0,
            win_border_color: Color { pixel: 0x000000 },
            win_border_color_focused: Color { pixel: 0x000000 },
            win_title_bg: Color { pixel: 0x5F676A },
            win_title_fg: Color { pixel: 0xFFFFFF },
            win_title_bg_focused: Color { pixel: 0x111111 },
            win_title_fg_focused: Color { pixel: 0xFFFFFF },
            win_title_border_width_left: 1,
            win_title_border_width_top: 1,
            win_title_border_width_right: 1,
            win_title_border_width_bottom: 1,
            win_title_border_color: Color { pixel: 0xFF0000 },
            win_title_border_color_focused: Color { pixel: 0x00FF00 },
        }
    }

    /// The stock configuration: the fourth modifier as the command
    /// key, a grey desktop, dark title bars with white text, and
    /// one-pixel title borders, green when focused and red otherwise.
    pub fn default() -> (r: Settings)
        ensures
            r == Settings::spec_default(),
            r.mod_key == KeyButton::Mod4,
            r.background_color.pixel == 0x444444,
            r.win_bg.pixel == 0x000000,
            r.win_bg_focused.pixel == 0x000000,
            r.win_border_width_left == 0,
            r.win_border_width_top == 0,
            r.win_border_width_right == 0,
            r.win_border_width_bottom == 0,
            r.win_border_color.pixel == 0x000000,
            r.win_border_color_focused.pixel == 0x000000,
            r.win_title_bg.pixel == 0x5F676A,
            r.win_title_fg.pixel == 0xFFFFFF,
            r.win_title_bg_focused.pixel == 0x111111,
            r.win_title_fg_focused.pixel == 0xFFFFFF,
            r.win_title_border_width_left == 1,
            r.win_title_border_width_top == 1,
            r.win_title_border_width_right == 1,
            r.win_title_border_width_bottom == 1,
            r.win_title_border_color.pixel == 0xFF0000,
            r.win_title_border_color_focused.pixel == 0x00FF00,
    {
        Settings {
            mod_key: KeyButton::Mod4,
            background_color: Color::from_num(0x444444),
            win_bg: Color::from_num(0x000000),
            win_bg_focused: Color::from_num(0x000000),
            win_border_width_left: 0,
            win_border_width_top: 0,
            win_border_width_right: 0,
            win_border_width_bottom: 0,
            win_border_color: Color::from_num(0x000000),
            win_border_color_focused: Color::from_num(0x000000),
            win_title_bg: Color::from_num(0x5F676A),
            win_title_fg: Color::from_num(0xFFFFFF),
            win_title_bg_focused: Color::from_num(0x111111),
            win_title_fg_focused: Color::from_num(0xFFFFFF),
            win_title_border_width_left: 1,
            win_title_border_width_top: 1,
            win_title_border_width_right: 1,
            win_title_border_width_bottom: 1,
            win_title_border_color: Color::from_num(0xFF0000),
            win_title_border_color_focused: Color::from_num(0x00FF00),
        }
    }
}

} // verus!
