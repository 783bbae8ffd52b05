//! Data types of the wire protocol: the connection descriptor, screens,
//! windows, pixmaps, graphics contexts, and the tagged optional-value
//! lists that object-creation requests carry.

use vstd::prelude::*;

verus! {

/// A type whose variants each denote a fixed 32-bit protocol constant.
pub trait Valued {
    /// The constant this variant denotes.
    spec fn spec_val(&self) -> u32;

    /// Returns the constant this variant denotes.
    fn val(&self) -> (r: u32)
        ensures
            r == self.spec_val(),
    ;
}

#[derive(Debug, Clone, Copy, PartialEq, Eq, Structural)]
pub enum BitOrder {
    LeastSignificant,
    MostSignificant,
}

impl Valued for BitOrder {
    open spec fn spec_val(&self) -> u32 {
        match self {
            BitOrder::LeastSignificant => 0,
            BitOrder::MostSignificant => 1,
        }
    }

    fn val(&self) -> (r: u32)
        ensures
            r == self.spec_val(),
    {
        match self {
            BitOrder::LeastSignificant => 0,
            BitOrder::MostSignificant => 1,
        }
    }
}

#[derive(Debug, Clone, Copy, PartialEq, Eq, Structural)]
pub enum ByteOrder {
    LSBFirst,
    MSBFirst,
}

impl Valued for ByteOrder {
    open spec fn spec_val(&self) -> u32 {
        match self {
            ByteOrder::LSBFirst => 0,
            ByteOrder::MSBFirst => 1,
        }
    }

    fn val(&self) -> (r: u32)
        ensures
            r == self.spec_val(),
    {
        match self {
            ByteOrder::LSBFirst => 0,
            ByteOrder::MSBFirst => 1,
        }
    }
}

/// Event categories a window can subscribe to; each variant is one bit
/// of the event mask.
#[derive(Debug, Clone, Copy, PartialEq, Eq, Structural)]
pub enum Event {
    KeyPress,
    KeyRelease,
    ButtonPress,
    ButtonRelease,
    EnterWindow,
    LeaveWindow,
    PointerMotion,
    PointerMotionHint,
    Button1Motion,
    Button2Motion,
    Button3Motion,
    Button4Motion,
    Button5Motion,
    ButtonMotion,
    KeymapState,
    Exposure,
    VisibilityChange,
    StructureNotify,
    ResizeRedirect,
    SubstructureNotify,
    SubstructureRedirect,
    FocusChange,
    PropertyChange,
    ColormapChange,
    OwnerGrabButton,
}

impl Valued for Event {
    open spec fn spec_val(&self) -> u32 {
        match self {
            Event::KeyPress => 0x00000001,
            Event::KeyRelease => 0x00000002,
            Event::ButtonPress => 0x00000004,
            Event::ButtonRelease => 0x00000008,
            Event::EnterWindow => 0x00000010,
            Event::LeaveWindow => 0x00000020,
            Event::PointerMotion => 0x00000040,
            Event::PointerMotionHint => 0x00000080,
            Event::Button1Motion => 0x00000100,
            Event::Button2Motion => 0x00000200,
            Event::Button3Motion => 0x00000400,
            Event::Button4Motion => 0x00000800,
            Event::Button5Motion => 0x00001000,
            Event::ButtonMotion => 0x00002000,
            Event::KeymapState => 0x00004000,
            Event::Exposure => 0x00008000,
            Event::VisibilityChange => 0x00010000,
            Event::StructureNotify => 0x00020000,
            Event::ResizeRedirect => 0x00040000,
            Event::SubstructureNotify => 0x00080000,
            Event::SubstructureRedirect => 0x00100000,
            Event::FocusChange => 0x00200000,
            Event::PropertyChange => 0x00400000,
            Event::ColormapChange => 0x00800000,
            Event::OwnerGrabButton => 0x01000000,
        }
    }

    fn val(&self) -> (r: u32)
        ensures
            r == self.spec_val(),
    {
        match self {
            Event::KeyPress => 0x00000001,
            Event::KeyRelease => 0x00000002,
            Event::ButtonPress => 0x00000004,
            Event::ButtonRelease => 0x00000008,
            Event::EnterWindow => 0x00000010,
            Event::LeaveWindow => 0x00000020,
            Event::PointerMotion => 0x00000040,
            Event::PointerMotionHint => 0x00000080,
            Event::Button1Motion => 0x00000100,
            Event::Button2Motion => 0x00000200,
            Event::Button3Motion => 0x00000400,
            Event::Button4Motion => 0x00000800,
            Event::Button5Motion => 0x00001000,
            Event::ButtonMotion => 0x00002000,
            Event::KeymapState => 0x00004000,
            Event::Exposure => 0x00008000,
            Event::VisibilityChange => 0x00010000,
            Event::StructureNotify => 0x00020000,
            Event::ResizeRedirect => 0x00040000,
            Event::SubstructureNotify => 0x00080000,
            Event::SubstructureRedirect => 0x00100000,
            Event::FocusChange => 0x00200000,
            Event::PropertyChange => 0x00400000,
            Event::ColormapChange => 0x00800000,
            Event::OwnerGrabButton => 0x01000000,
        }
    }
}

/// Pointer-event bits of the event mask.
#[derive(Debug, Clone, Copy, PartialEq, Eq, Structural)]
pub enum PointerEvent {
    ButtonPress,
    ButtonRelease,
    EnterWindow,
    LeaveWindow,
    PointerMotion,
    PointerMotionHint,
    Button1Motion,
    Button2Motion,
    Button3Motion,
    Button4Motion,
    Button5Motion,
    ButtonMotion,
    KeymapState,
}

impl Valued for PointerEvent {
    open spec fn spec_val(&self) -> u32 {
        match self {
            PointerEvent::ButtonPress => 0x00000004,
            PointerEvent::ButtonRelease => 0x00000008,
            PointerEvent::EnterWindow => 0x00000010,
            PointerEvent::LeaveWindow => 0x00000020,
            PointerEvent::PointerMotion => 0x00000040,
            PointerEvent::PointerMotionHint => 0x00000080,
            PointerEvent::Button1Motion => 0x00000100,
            PointerEvent::Button2Motion => 0x00000200,
            PointerEvent::Button3Motion => 0x00000400,
            PointerEvent::Button4Motion => 0x00000800,
            PointerEvent::Button5Motion => 0x00001000,
            PointerEvent::ButtonMotion => 0x00002000,
            PointerEvent::KeymapState => 0x00004000,
        }
    }

    fn val(&self) -> (r: u32)
        ensures
            r == self.spec_val(),
    {
        match self {
            PointerEvent::ButtonPress => 0x00000004,
            PointerEvent::ButtonRelease => 0x00000008,
            PointerEvent::EnterWindow => 0x00000010,
            PointerEvent::LeaveWindow => 0x00000020,
            PointerEvent::PointerMotion => 0x00000040,
            PointerEvent::PointerMotionHint => 0x00000080,
            PointerEvent::Button1Motion => 0x00000100,
            PointerEvent::Button2Motion => 0x00000200,
            PointerEvent::Button3Motion => 0x00000400,
            PointerEvent::Button4Motion => 0x00000800,
            PointerEvent::Button5Motion => 0x00001000,
            PointerEvent::ButtonMotion => 0x00002000,
            PointerEvent::KeymapState => 0x00004000,
        }
    }
}

/// Device-event bits of the event mask.
#[derive(Debug, Clone, Copy, PartialEq, Eq, Structural)]
pub enum DeviceEvent {
    KeyPress,
    KeyRelease,
    ButtonPress,
    ButtonRelease,
    PointerMotion,
    Button1Motion,
    Button2Motion,
    Button3Motion,
    Button4Motion,
    Button5Motion,
    ButtonMotion,
}

impl Valued for DeviceEvent {
    open spec fn spec_val(&self) -> u32 {
        match self {
            DeviceEvent::KeyPress => 0x00000001,
            DeviceEvent::KeyRelease => 0x00000002,
            DeviceEvent::ButtonPress => 0x00000004,
            DeviceEvent::ButtonRelease => 0x00000008,
            DeviceEvent::PointerMotion => 0x00000040,
            DeviceEvent::Button1Motion => 0x00000100,
            DeviceEvent::Button2Motion => 0x00000200,
            DeviceEvent::Button3Motion => 0x00000400,
            DeviceEvent::Button4Motion => 0x00000800,
            DeviceEvent::Button5Motion => 0x00001000,
            DeviceEvent::ButtonMotion => 0x00002000,
        }
    }

    fn val(&self) -> (r: u32)
        ensures
            r == self.spec_val(),
    {
        match self {
            DeviceEvent::KeyPress => 0x00000001,
            DeviceEvent::KeyRelease => 0x00000002,
            DeviceEvent::ButtonPress => 0x00000004,
            DeviceEvent::ButtonRelease => 0x00000008,
            DeviceEvent::PointerMotion => 0x00000040,
            DeviceEvent::Button1Motion => 0x00000100,
            DeviceEvent::Button2Motion => 0x00000200,
            DeviceEvent::Button3Motion => 0x00000400,
            DeviceEvent::Button4Motion => 0x00000800,
            DeviceEvent::Button5Motion => 0x00001000,
            DeviceEvent::ButtonMotion => 0x00002000,
        }
    }
}

#[derive(Debug, Clone, Copy, PartialEq, Eq, Structural)]
pub enum ScreenBackingStores {
    Never,
    WhenMapped,
    Always,
}

impl Valued for ScreenBackingStores {
    open spec fn spec_val(&self) -> u32 {
        match self {
            ScreenBackingStores::Never => 0,
            ScreenBackingStores::WhenMapped => 1,
            ScreenBackingStores::Always => 2,
        }
    }

    fn val(&self) -> (r: u32)
        ensures
            r == self.spec_val(),
    {
        match self {
            ScreenBackingStores::Never => 0,
            ScreenBackingStores::WhenMapped => 1,
            ScreenBackingStores::Always => 2,
        }
    }
}

#[derive(Debug, Clone, Copy, PartialEq, Eq, Structural)]
pub enum VisualType {
    StaticGray,
    GrayScale,
    StaticColor,
    PseudoColor,
    TrueColor,
    DirectColor,
}

impl Valued for VisualType {
    open spec fn spec_val(&self) -> u32 {
        match self {
            VisualType::StaticGray => 0,
            VisualType::GrayScale => 1,
            VisualType::StaticColor => 2,
            VisualType::PseudoColor => 3,
            VisualType::TrueColor => 4,
            VisualType::DirectColor => 5,
        }
    }

    fn val(&self) -> (r: u32)
        ensures
            r == self.spec_val(),
    {
        match self {
            VisualType::StaticGray => 0,
            VisualType::GrayScale => 1,
            VisualType::StaticColor => 2,
            VisualType::PseudoColor => 3,
            VisualType::TrueColor => 4,
            VisualType::DirectColor => 5,
        }
    }
}

#[derive(Debug, Clone, Copy, PartialEq, Eq, Structural)]
pub enum WindowInputType {
    CopyFromParent,
    InputOutput,
    InputOnly,
}

impl Valued for WindowInputType {
    open spec fn spec_val(&self) -> u32 {
        match self {
            WindowInputType::CopyFromParent => 0,
            WindowInputType::InputOutput => 1,
            WindowInputType::InputOnly => 2,
        }
    }

    fn val(&self) -> (r: u32)
        ensures
            r == self.spec_val(),
    {
        match self {
            WindowInputType::CopyFromParent => 0,
            WindowInputType::InputOutput => 1,
            WindowInputType::InputOnly => 2,
        }
    }
}

#[derive(Debug, Clone, Copy, PartialEq, Eq, Structural)]
pub enum WindowValueBackingStore {
    NotUseful,
    WhenMapped,
    Always,
}

impl Valued for WindowValueBackingStore {
    open spec fn spec_val(&self) -> u32 {
        match self {
            WindowValueBackingStore::NotUseful => 0,
            WindowValueBackingStore::WhenMapped => 1,
            WindowValueBackingStore::Always => 2,
        }
    }

    fn val(&self) -> (r: u32)
        ensures
            r == self.spec_val(),
    {
        match self {
            WindowValueBackingStore::NotUseful => 0,
            WindowValueBackingStore::WhenMapped => 1,
            WindowValueBackingStore::Always => 2,
        }
    }
}

#[derive(Debug, Clone, Copy, PartialEq, Eq, Structural)]
pub enum BitGravity {
    Forget,
    Static,
    NorthWest,
    North,
    NorthEast,
    West,
    Center,
    East,
    SouthWest,
    South,
    SouthEast,
}

impl Valued for BitGravity {
    open spec fn spec_val(&self) -> u32 {
        match self {
            BitGravity::Forget => 0,
            BitGravity::Static => 1,
            BitGravity::NorthWest => 2,
            BitGravity::North => 3,
            BitGravity::NorthEast => 4,
            BitGravity::West => 5,
            BitGravity::Center => 6,
            BitGravity::East => 7,
            BitGravity::SouthWest => 8,
            BitGravity::South => 9,
            BitGravity::SouthEast => 10,
        }
    }

    fn val(&self) -> (r: u32)
        ensures
            r == self.spec_val(),
    {
        match self {
            BitGravity::Forget => 0,
            BitGravity::Static => 1,
            BitGravity::NorthWest => 2,
            BitGravity::North => 3,
            BitGravity::NorthEast => 4,
            BitGravity::West => 5,
            BitGravity::Center => 6,
            BitGravity::East => 7,
            BitGravity::SouthWest => 8,
            BitGravity::South => 9,
            BitGravity::SouthEast => 10,
        }
    }
}

#[derive(Debug, Clone, Copy, PartialEq, Eq, Structural)]
pub enum WindowGravity {
    Unmap,
    Static,
    NorthWest,
    North,
    NorthEast,
    West,
    Center,
    East,
    SouthWest,
    South,
    SouthEast,
}

impl Valued for WindowGravity {
    open spec fn spec_val(&self) -> u32 {
        match self {
            WindowGravity::Unmap => 0,
            WindowGravity::Static => 1,
            WindowGravity::NorthWest => 2,
            WindowGravity::North => 3,
            WindowGravity::NorthEast => 4,
            WindowGravity::West => 5,
            WindowGravity::Center => 6,
            WindowGravity::East => 7,
            WindowGravity::SouthWest => 8,
            WindowGravity::South => 9,
            WindowGravity::SouthEast => 10,
        }
    }

    fn val(&self) -> (r: u32)
        ensures
            r == self.spec_val(),
    {
        match self {
            WindowGravity::Unmap => 0,
            WindowGravity::Static => 1,
            WindowGravity::NorthWest => 2,
            WindowGravity::North => 3,
            WindowGravity::NorthEast => 4,
            WindowGravity::West => 5,
            WindowGravity::Center => 6,
            WindowGravity::East => 7,
            WindowGravity::SouthWest => 8,
            WindowGravity::South => 9,
            WindowGravity::SouthEast => 10,
        }
    }
}

#[derive(Debug, Clone, Copy, PartialEq, Eq, Structural)]
pub enum GCFunction {
    Clear,
    And,
    AndReverse,
    Copy,
    AndInverted,
    NoOp,
    Xor,
    Or,
    Nor,
    Equiv,
    Invert,
    OrReverse,
    CopyInverted,
    OrInverted,
    Nand,
    SetAll,
}

impl Valued for GCFunction {
    open spec fn spec_val(&self) -> u32 {
        match self {
            GCFunction::Clear => 0,
            GCFunction::And => 1,
            GCFunction::AndReverse => 2,
            GCFunction::Copy => 3,
            GCFunction::AndInverted => 4,
            GCFunction::NoOp => 5,
            GCFunction::Xor => 6,
            GCFunction::Or => 7,
            GCFunction::Nor => 8,
            GCFunction::Equiv => 9,
            GCFunction::Invert => 10,
            GCFunction::OrReverse => 11,
            GCFunction::CopyInverted => 12,
            GCFunction::OrInverted => 13,
            GCFunction::Nand => 14,
            GCFunction::SetAll => 15,
        }
    }

    fn val(&self) -> (r: u32)
        ensures
            r == self.spec_val(),
    {
        match self {
            GCFunction::Clear => 0,
            GCFunction::And => 1,
            GCFunction::AndReverse => 2,
            GCFunction::Copy => 3,
            GCFunction::AndInverted => 4,
            GCFunction::NoOp => 5,
            GCFunction::Xor => 6,
            GCFunction::Or => 7,
            GCFunction::Nor => 8,
            GCFunction::Equiv => 9,
            GCFunction::Invert => 10,
            GCFunction::OrReverse => 11,
            GCFunction::CopyInverted => 12,
            GCFunction::OrInverted => 13,
            GCFunction::Nand => 14,
            GCFunction::SetAll => 15,
        }
    }
}

#[derive(Debug, Clone, Copy, PartialEq, Eq, Structural)]
pub enum GCLineStyle {
    Solid,
    OnOffDash,
    DoubleDash,
}

impl Valued for GCLineStyle {
    open spec fn spec_val(&self) -> u32 {
        match self {
            GCLineStyle::Solid => 0,
            GCLineStyle::OnOffDash => 1,
            GCLineStyle::DoubleDash => 2,
        }
    }

    fn val(&self) -> (r: u32)
        ensures
            r == self.spec_val(),
    {
        match self {
            GCLineStyle::Solid => 0,
            GCLineStyle::OnOffDash => 1,
            GCLineStyle::DoubleDash => 2,
        }
    }
}

#[derive(Debug, Clone, Copy, PartialEq, Eq, Structural)]
pub enum GCCapStyle {
    NotLast,
    Butt,
    Round,
    Projecting,
}

impl Valued for GCCapStyle {
    open spec fn spec_val(&self) -> u32 {
        match self {
            GCCapStyle::NotLast => 0,
            GCCapStyle::Butt => 1,
            GCCapStyle::Round => 2,
            GCCapStyle::Projecting => 3,
        }
    }

    fn val(&self) -> (r: u32)
        ensures
            r == self.spec_val(),
    {
        match self {
            GCCapStyle::NotLast => 0,
            GCCapStyle::Butt => 1,
            GCCapStyle::Round => 2,
            GCCapStyle::Projecting => 3,
        }
    }
}

#[derive(Debug, Clone, Copy, PartialEq, Eq, Structural)]
pub enum GCJoinStyle {
    Miter,
    Round,
    Bevel,
}

impl Valued for GCJoinStyle {
    open spec fn spec_val(&self) -> u32 {
        match self {
            GCJoinStyle::Miter => 0,
            GCJoinStyle::Round => 1,
            GCJoinStyle::Bevel => 2,
        }
    }

    fn val(&self) -> (r: u32)
        ensures
            r == self.spec_val(),
    {
        match self {
            GCJoinStyle::Miter => 0,
            GCJoinStyle::Round => 1,
            GCJoinStyle::Bevel => 2,
        }
    }
}

#[derive(Debug, Clone, Copy, PartialEq, Eq, Structural)]
pub enum GCFillStyle {
    Solid,
    Tiled,
    Stippled,
    OpaqueStippled,
}

impl Valued for GCFillStyle {
    open spec fn spec_val(&self) -> u32 {
        match self {
            GCFillStyle::Solid => 0,
            GCFillStyle::Tiled => 1,
            GCFillStyle::Stippled => 2,
            GCFillStyle::OpaqueStippled => 3,
        }
    }

    fn val(&self) -> (r: u32)
        ensures
            r == self.spec_val(),
    {
        match self {
            GCFillStyle::Solid => 0,
            GCFillStyle::Tiled => 1,
            GCFillStyle::Stippled => 2,
            GCFillStyle::OpaqueStippled => 3,
        }
    }
}

#[derive(Debug, Clone, Copy, PartialEq, Eq, Structural)]
pub enum GCFillRule {
    EvenOdd,
    Winding,
}

impl Valued for GCFillRule {
    open spec fn spec_val(&self) -> u32 {
        match self {
            GCFillRule::EvenOdd => 0,
            GCFillRule::Winding => 1,
        }
    }

    fn val(&self) -> (r: u32)
        ensures
            r == self.spec_val(),
    {
        match self {
            GCFillRule::EvenOdd => 0,
            GCFillRule::Winding => 1,
        }
    }
}

#[derive(Debug, Clone, Copy, PartialEq, Eq, Structural)]
pub enum GCSubWindowMode {
    ClipByChildren,
    IncludeInferiors,
}

impl Valued for GCSubWindowMode {
    open spec fn spec_val(&self) -> u32 {
        match self {
            GCSubWindowMode::ClipByChildren => 0,
            GCSubWindowMode::IncludeInferiors => 1,
        }
    }

    fn val(&self) -> (r: u32)
        ensures
            r == self.spec_val(),
    {
        match self {
            GCSubWindowMode::ClipByChildren => 0,
            GCSubWindowMode::IncludeInferiors => 1,
        }
    }
}

#[derive(Debug, Clone, Copy, PartialEq, Eq, Structural)]
pub enum GCArcMode {
    Chord,
    PieSlice,
}

impl Valued for GCArcMode {
    open spec fn spec_val(&self) -> u32 {
        match self {
            GCArcMode::Chord => 0,
            GCArcMode::PieSlice => 1,
        }
    }

    fn val(&self) -> (r: u32)
        ensures
            r == self.spec_val(),
    {
        match self {
            GCArcMode::Chord => 0,
            GCArcMode::PieSlice => 1,
        }
    }
}

/// Modifier and button bits of the key-press state mask.
#[derive(Debug, Clone, Copy, PartialEq, Eq, Structural)]
pub enum KeyButton {
    Shift,
    Lock,
    Control,
    Mod1,
    Mod2,
    Mod3,
    Mod4,
    Mod5,
    Button1,
    Button2,
    Button3,
    Button4,
    Button5,
}

impl Valued for KeyButton {
    open spec fn spec_val(&self) -> u32 {
        match self {
            KeyButton::Shift => 0x0001,
            KeyButton::Lock => 0x0002,
            KeyButton::Control => 0x0004,
            KeyButton::Mod1 => 0x0008,
            KeyButton::Mod2 => 0x0010,
            KeyButton::Mod3 => 0x0020,
            KeyButton::Mod4 => 0x0040,
            KeyButton::Mod5 => 0x0080,
            KeyButton::Button1 => 0x0100,
            KeyButton::Button2 => 0x0200,
            KeyButton::Button3 => 0x0400,
            KeyButton::Button4 => 0x0800,
            KeyButton::Button5 => 0x1000,
        }
    }

    fn val(&self) -> (r: u32)
        ensures
            r == self.spec_val(),
    {
        match self {
            KeyButton::Shift => 0x0001,
            KeyButton::Lock => 0x0002,
            KeyButton::Control => 0x0004,
            KeyButton::Mod1 => 0x0008,
            KeyButton::Mod2 => 0x0010,
            KeyButton::Mod3 => 0x0020,
            KeyButton::Mod4 => 0x0040,
            KeyButton::Mod5 => 0x0080,
            KeyButton::Button1 => 0x0100,
            KeyButton::Button2 => 0x0200,
            KeyButton::Button3 => 0x0400,
            KeyButton::Button4 => 0x0800,
            KeyButton::Button5 => 0x1000,
        }
    }
}

/// A pixel color, stored as the server's 32-bit pixel value.
#[derive(Debug, Clone, Copy, PartialEq, Eq, Structural)]
pub struct Color {
    pub pixel: u32,
}

impl Color {
    /// Builds a color from a packed numeric pixel value.
    pub fn from_num(num: u32) -> (r: Color)
        ensures
            r.pixel == num,
    {
        Color { pixel: num }
    }
}

/// Immutable post-handshake facts about the connection.
#[derive(Debug)]
pub struct ConnectInfo {
    pub status_code: u8,
    pub protocol_major_version: u16,
    pub protocol_minor_version: u16,
    pub additional_data_len: u16,
    pub release_number: u32,
    pub resource_id_base: u32,
    pub resource_id_mask: u32,
    pub motion_buffer_size: u32,
    pub max_request_length: u16,
    pub num_screens: u8,
    pub num_formats: u8,
    pub image_byte_order: ByteOrder,
    pub bitmap_format_bit_order: BitOrder,
    pub bitmap_format_scanline_unit: u8,
    pub bitmap_format_scanline_pad: u8,
    pub min_keycode: u8,
    pub max_keycode: u8,
    pub vendor: Vec<u8>,
    pub formats: Vec<Format>,
    pub screens: Vec<Screen>,
}

impl ConnectInfo {
    /// The all-zero descriptor used before the handshake response arrives.
    pub fn empty() -> (r: ConnectInfo)
        ensures
            r.status_code == 0,
            r.protocol_major_version == 0,
            r.protocol_minor_version == 0,
            r.additional_data_len == 0,
            r.release_number == 0,
            r.resource_id_base == 0,
            r.resource_id_mask == 0,
            r.motion_buffer_size == 0,
            r.max_request_length == 0,
            r.num_screens == 0,
            r.num_formats == 0,
            r.image_byte_order == ByteOrder::LSBFirst,
            r.bitmap_format_bit_order == BitOrder::LeastSignificant,
            r.bitmap_format_scanline_unit == 0,
            r.bitmap_format_scanline_pad == 0,
            r.min_keycode == 0,
            r.max_keycode == 0,
            r.vendor@ == Seq::<u8>::empty(),
            r.formats@ == Seq::<Format>::empty(),
            r.screens@ == Seq::<Screen>::empty(),
    {
        ConnectInfo {
            status_code: 0,
            protocol_major_version: 0,
            protocol_minor_version: 0,
            additional_data_len: 0,
            release_number: 0,
            resource_id_base: 0,
            resource_id_mask: 0,
            motion_buffer_size: 0,
            max_request_length: 0,
            num_screens: 0,
            num_formats: 0,
            image_byte_order: ByteOrder::LSBFirst,
            bitmap_format_bit_order: BitOrder::LeastSignificant,
            bitmap_format_scanline_unit: 0,
            bitmap_format_scanline_pad: 0,
            min_keycode: 0,
            max_keycode: 0,
            vendor: Vec::new(),
            formats: Vec::new(),
            screens: Vec::new(),
        }
    }
}

/// One physical display: its root window, color defaults and geometry.
#[derive(Debug)]
pub struct Screen {
    pub root: u32,
    pub default_colormap: u32,
    pub white_pixel: u32,
    pub black_pixel: u32,
    pub current_input_masks: u32,
    pub width_in_pixels: u16,
    pub height_in_pixels: u16,
    pub width_in_millimeters: u16,
    pub height_in_millimeters: u16,
    pub min_installed_maps: u16,
    pub max_installed_maps: u16,
    pub root_visual: u32,
    pub backing_stores: ScreenBackingStores,
    pub save_unders: bool,
    pub root_depth: u8,
    pub num_depths: u8,
    pub depths: Vec<Depth>,
}

impl Screen {
    /// The all-zero screen record used while parsing.
    pub fn empty() -> (r: Screen)
        ensures
            r.root == 0,
            r.default_colormap == 0,
            r.white_pixel == 0,
            r.black_pixel == 0,
            r.current_input_masks == 0,
            r.width_in_pixels == 0,
            r.height_in_pixels == 0,
            r.width_in_millimeters == 0,
            r.height_in_millimeters == 0,
            r.min_installed_maps == 0,
            r.max_installed_maps == 0,
            r.root_visual == 0,
            r.backing_stores == ScreenBackingStores::Never,
            r.save_unders == false,
            r.root_depth == 0,
            r.num_depths == 0,
            r.depths@ == Seq::<Depth>::empty(),
    {
        Screen {
            root: 0,
            default_colormap: 0,
            white_pixel: 0,
            black_pixel: 0,
            current_input_masks: 0,
            width_in_pixels: 0,
            height_in_pixels: 0,
            width_in_millimeters: 0,
            height_in_millimeters: 0,
            min_installed_maps: 0,
            max_installed_maps: 0,
            root_visual: 0,
            backing_stores: ScreenBackingStores::Never,
            save_unders: false,
            root_depth: 0,
            num_depths: 0,
            depths: Vec::new(),
        }
    }
}

/// A supported color depth of a screen and its visuals.
#[derive(Debug)]
pub struct Depth {
    pub depth: u8,
    pub num_visuals: u16,
    pub visuals: Vec<Visual>,
}

impl Depth {
    /// The all-zero depth record used while parsing.
    pub fn empty() -> (r: Depth)
        ensures
            r.depth == 0,
            r.num_visuals == 0,
            r.visuals@ == Seq::<Visual>::empty(),
    {
        Depth { depth: 0, num_visuals: 0, visuals: Vec::new() }
    }
}

/// A pixmap format record of the handshake response.
#[derive(Debug, Clone, Copy, PartialEq, Eq, Structural)]
pub struct Format {
    pub depth: u8,
    pub bits_per_pixel: u8,
    pub scanline_pad: u8,
}

impl Format {
    /// The all-zero format record used while parsing.
    pub fn empty() -> (r: Format)
        ensures
            r.depth == 0,
            r.bits_per_pixel == 0,
            r.scanline_pad == 0,
    {
        Format { depth: 0, bits_per_pixel: 0, scanline_pad: 0 }
    }
}

/// A visual type record of the handshake response.
#[derive(Debug, Clone, Copy, PartialEq, Eq, Structural)]
pub struct Visual {
    pub id: u32,
    pub class: VisualType,
    pub bits_per_rgb_value: u8,
    pub colormap_entries: u16,
    pub red_mask: u32,
    pub green_mask: u32,
    pub blue_mask: u32,
}

impl Visual {
    /// The all-zero visual record used while parsing.
    pub fn empty() -> (r: Visual)
        ensures
            r.id == 0,
            r.class == VisualType::StaticGray,
            r.bits_per_rgb_value == 0,
            r.colormap_entries == 0,
            r.red_mask == 0,
            r.green_mask == 0,
            r.blue_mask == 0,
    {
        Visual {
            id: 0,
            class: VisualType::StaticGray,
            bits_per_rgb_value: 0,
            colormap_entries: 0,
            red_mask: 0,
            green_mask: 0,
            blue_mask: 0,
        }
    }
}

/// A client-side window record: the last-known server state plus the
/// attribute overrides sent at creation.
#[derive(Debug)]
pub struct Window {
    pub depth: u8,
    pub wid: u32,
    pub parent: u32,
    pub x: i16,
    pub y: i16,
    pub width: u16,
    pub height: u16,
    pub border_width: u16,
    pub class: WindowInputType,
    pub visual_id: u32,
    pub values: Vec<WindowValue>,
}

/// A client-side pixmap record.
#[derive(Debug, Clone, Copy, PartialEq, Eq, Structural)]
pub struct Pixmap {
    pub depth: u8,
    pub pid: u32,
    pub drawable: u32,
    pub width: u16,
    pub height: u16,
}

/// A graphics context handle together with the last foreground color
/// applied to it, cached so that a repeated color is not re-sent.
#[derive(Debug)]
pub struct GraphicsContext {
    pub cid: u32,
    pub drawable: u32,
    pub values: Vec<GraphicsContextValue>,
    pub foreground: Option<u32>,
}

/// A rectangle as drawn by fill and outline requests.
#[derive(Debug, Clone, Copy, PartialEq, Eq, Structural)]
pub struct Rectangle {
    pub x: i16,
    pub y: i16,
    pub width: u16,
    pub height: u16,
}

/// An optional attribute override of a window-creation or
/// window-change request; each variant is one bit of the value mask.
#[derive(Debug, Clone, Copy, PartialEq, Eq, Structural)]
pub enum WindowValue {
    BackgroundPixmap(u32),
    BackgroundPixel(u32),
    BorderPixmap(u32),
    BorderPixel(u32),
    BitGravity(BitGravity),
    WinGravity(WindowGravity),
    BackingStore(WindowValueBackingStore),
    BackingPlanes(u32),
    BackingPixel(u32),
    OverrideRedirect(bool),
    SaveUnder(bool),
    EventMask(u32),
    DoNotPropagateMask(u32),
    Colormap(u32),
    Cursor(u32),
}

/// An optional attribute override of a graphics-context request.
#[derive(Debug, Clone, Copy, PartialEq, Eq, Structural)]
pub enum GraphicsContextValue {
    Function(GCFunction),
    PlaneMask(u32),
    Foreground(u32),
    Background(u32),
    LineWidth(u16),
    LineStyle(GCLineStyle),
    CapStyle(GCCapStyle),
    JoinStyle(GCJoinStyle),
    FillStyle(GCFillStyle),
    FillRule(GCFillRule),
    Tile(u32),
    Stipple(u32),
    TileStippleXOrigin(u16),
    TileStippleYOrigin(u16),
    Font(u32),
    SubWindowMode(GCSubWindowMode),
    GraphicsExposures(bool),
    ClipXOrigin(u16),
    ClipYOrigin(u16),
    ClipMask(u32),
    DashOffset(u16),
    Dashes(u8),
    ArcMode(GCArcMode),
}

/// An optional attribute of a request's value list: it has a mask bit
/// and a 32-bit wire form.
pub trait Value {
    /// The bit this attribute occupies in the request's value mask.
    spec fn spec_mask(&self) -> u32;

    /// The 32-bit wire form of the attribute's payload.
    spec fn spec_value(&self) -> u32;

    /// Returns the bit this attribute occupies in the value mask.
    fn get_mask(&self) -> (r: u32)
        ensures
            r == self.spec_mask(),
    ;

    /// Returns the 32-bit wire form of the attribute's payload.
    fn value_word(&self) -> (r: u32)
        ensures
            r == self.spec_value(),
    ;
}

impl Value for WindowValue {
    open spec fn spec_mask(&self) -> u32 {
        match self {
            WindowValue::BackgroundPixmap(_) => 0x00000001,
            WindowValue::BackgroundPixel(_) => 0x00000002,
            WindowValue::BorderPixmap(_) => 0x00000004,
            WindowValue::BorderPixel(_) => 0x00000008,
            WindowValue::BitGravity(_) => 0x00000010,
            WindowValue::WinGravity(_) => 0x00000020,
            WindowValue::BackingStore(_) => 0x00000040,
            WindowValue::BackingPlanes(_) => 0x00000080,
            WindowValue::BackingPixel(_) => 0x00000100,
            WindowValue::OverrideRedirect(_) => 0x00000200,
            WindowValue::SaveUnder(_) => 0x00000400,
            WindowValue::EventMask(_) => 0x00000800,
            WindowValue::DoNotPropagateMask(_) => 0x00001000,
            WindowValue::Colormap(_) => 0x00002000,
            WindowValue::Cursor(_) => 0x00004000,
        }
    }

    open spec fn spec_value(&self) -> u32 {
        match self {
            WindowValue::BackgroundPixmap(v) => *v,
            WindowValue::BackgroundPixel(v) => *v,
            WindowValue::BorderPixmap(v) => *v,
            WindowValue::BorderPixel(v) => *v,
            WindowValue::BitGravity(v) => v.spec_val(),
            WindowValue::WinGravity(v) => v.spec_val(),
            WindowValue::BackingStore(v) => v.spec_val(),
            WindowValue::BackingPlanes(v) => *v,
            WindowValue::BackingPixel(v) => *v,
            WindowValue::OverrideRedirect(v) => if *v { 1 } else { 0 },
            WindowValue::SaveUnder(v) => if *v { 1 } else { 0 },
            WindowValue::EventMask(v) => *v,
            WindowValue::DoNotPropagateMask(v) => *v,
            WindowValue::Colormap(v) => *v,
            WindowValue::Cursor(v) => *v,
        }
    }

    fn get_mask(&self) -> (r: u32)
        ensures
            r == self.spec_mask(),
    {
        match self {
            WindowValue::BackgroundPixmap(_) => 0x00000001,
            WindowValue::BackgroundPixel(_) => 0x00000002,
            WindowValue::BorderPixmap(_) => 0x00000004,
            WindowValue::BorderPixel(_) => 0x00000008,
            WindowValue::BitGravity(_) => 0x00000010,
            WindowValue::WinGravity(_) => 0x00000020,
            WindowValue::BackingStore(_) => 0x00000040,
            WindowValue::BackingPlanes(_) => 0x00000080,
            WindowValue::BackingPixel(_) => 0x00000100,
            WindowValue::OverrideRedirect(_) => 0x00000200,
            WindowValue::SaveUnder(_) => 0x00000400,
            WindowValue::EventMask(_) => 0x00000800,
            WindowValue::DoNotPropagateMask(_) => 0x00001000,
            WindowValue::Colormap(_) => 0x00002000,
            WindowValue::Cursor(_) => 0x00004000,
        }
    }

    fn value_word(&self) -> (r: u32)
        ensures
            r == self.spec_value(),
    {
        match self {
            WindowValue::BackgroundPixmap(v) => *v,
            WindowValue::BackgroundPixel(v) => *v,
            WindowValue::BorderPixmap(v) => *v,
            WindowValue::BorderPixel(v) => *v,
            WindowValue::BitGravity(v) => v.val(),
            WindowValue::WinGravity(v) => v.val(),
            WindowValue::BackingStore(v) => v.val(),
            WindowValue::BackingPlanes(v) => *v,
            WindowValue::BackingPixel(v) => *v,
            WindowValue::OverrideRedirect(v) => if *v { 1 } else { 0 },
            WindowValue::SaveUnder(v) => if *v { 1 } else { 0 },
            WindowValue::EventMask(v) => *v,
            WindowValue::DoNotPropagateMask(v) => *v,
            WindowValue::Colormap(v) => *v,
            WindowValue::Cursor(v) => *v,
        }
    }
}

impl Value for GraphicsContextValue {
    open spec fn spec_mask(&self) -> u32 {
        match self {
            GraphicsContextValue::Function(_) => 0x00000001,
            GraphicsContextValue::PlaneMask(_) => 0x00000002,
            GraphicsContextValue::Foreground(_) => 0x00000004,
            GraphicsContextValue::Background(_) => 0x00000008,
            GraphicsContextValue::LineWidth(_) => 0x00000010,
            GraphicsContextValue::LineStyle(_) => 0x00000020,
            GraphicsContextValue::CapStyle(_) => 0x00000040,
            GraphicsContextValue::JoinStyle(_) => 0x00000080,
            GraphicsContextValue::FillStyle(_) => 0x00000100,
            GraphicsContextValue::FillRule(_) => 0x00000200,
            GraphicsContextValue::Tile(_) => 0x00000400,
            GraphicsContextValue::Stipple(_) => 0x00000800,
            GraphicsContextValue::TileStippleXOrigin(_) => 0x00001000,
            GraphicsContextValue::TileStippleYOrigin(_) => 0x00002000,
            GraphicsContextValue::Font(_) => 0x00004000,
            GraphicsContextValue::SubWindowMode(_) => 0x00008000,
            GraphicsContextValue::GraphicsExposures(_) => 0x00010000,
            GraphicsContextValue::ClipXOrigin(_) => 0x00020000,
            GraphicsContextValue::ClipYOrigin(_) => 0x00040000,
            GraphicsContextValue::ClipMask(_) => 0x00080000,
            GraphicsContextValue::DashOffset(_) => 0x00100000,
            GraphicsContextValue::Dashes(_) => 0x00200000,
            GraphicsContextValue::ArcMode(_) => 0x00400000,
        }
    }

    open spec fn spec_value(&self) -> u32 {
        match self {
            GraphicsContextValue::Function(v) => v.spec_val(),
            GraphicsContextValue::PlaneMask(v) => *v,
            GraphicsContextValue::Foreground(v) => *v,
            GraphicsContextValue::Background(v) => *v,
            GraphicsContextValue::LineWidth(v) => *v as u32,
            GraphicsContextValue::LineStyle(v) => v.spec_val(),
            GraphicsContextValue::CapStyle(v) => v.spec_val(),
            GraphicsContextValue::JoinStyle(v) => v.spec_val(),
            GraphicsContextValue::FillStyle(v) => v.spec_val(),
            GraphicsContextValue::FillRule(v) => v.spec_val(),
            GraphicsContextValue::Tile(v) => *v,
            GraphicsContextValue::Stipple(v) => *v,
            GraphicsContextValue::TileStippleXOrigin(v) => *v as u32,
            GraphicsContextValue::TileStippleYOrigin(v) => *v as u32,
            GraphicsContextValue::Font(v) => *v,
            GraphicsContextValue::SubWindowMode(v) => v.spec_val(),
            GraphicsContextValue::GraphicsExposures(v) => if *v { 1 } else { 0 },
            GraphicsContextValue::ClipXOrigin(v) => *v as u32,
            GraphicsContextValue::ClipYOrigin(v) => *v as u32,
            GraphicsContextValue::ClipMask(v) => *v,
            GraphicsContextValue::DashOffset(v) => *v as u32,
            GraphicsContextValue::Dashes(v) => *v as u32,
            GraphicsContextValue::ArcMode(v) => v.spec_val(),
        }
    }

    fn get_mask(&self) -> (r: u32)
        ensures
            r == self.spec_mask(),
    {
        match self {
            GraphicsContextValue::Function(_) => 0x00000001,
            GraphicsContextValue::PlaneMask(_) => 0x00000002,
            GraphicsContextValue::Foreground(_) => 0x00000004,
            GraphicsContextValue::Background(_) => 0x00000008,
            GraphicsContextValue::LineWidth(_) => 0x00000010,
            GraphicsContextValue::LineStyle(_) => 0x00000020,
            GraphicsContextValue::CapStyle(_) => 0x00000040,
            GraphicsContextValue::JoinStyle(_) => 0x00000080,
            GraphicsContextValue::FillStyle(_) => 0x00000100,
            GraphicsContextValue::FillRule(_) => 0x00000200,
            GraphicsContextValue::Tile(_) => 0x00000400,
            GraphicsContextValue::Stipple(_) => 0x00000800,
            GraphicsContextValue::TileStippleXOrigin(_) => 0x00001000,
            GraphicsContextValue::TileStippleYOrigin(_) => 0x00002000,
            GraphicsContextValue::Font(_) => 0x00004000,
            GraphicsContextValue::SubWindowMode(_) => 0x00008000,
            GraphicsContextValue::GraphicsExposures(_) => 0x00010000,
            GraphicsContextValue::ClipXOrigin(_) => 0x00020000,
            GraphicsContextValue::ClipYOrigin(_) => 0x00040000,
            GraphicsContextValue::ClipMask(_) => 0x00080000,
            GraphicsContextValue::DashOffset(_) => 0x00100000,
            GraphicsContextValue::Dashes(_) => 0x00200000,
            GraphicsContextValue::ArcMode(_) => 0x00400000,
        }
    }

    fn value_word(&self) -> (r: u32)
        ensures
            r == self.spec_value(),
    {
        match self {
            GraphicsContextValue::Function(v) => v.val(),
            GraphicsContextValue::PlaneMask(v) => *v,
            GraphicsContextValue::Foreground(v) => *v,
            GraphicsContextValue::Background(v) => *v,
            GraphicsContextValue::LineWidth(v) => *v as u32,
            GraphicsContextValue::LineStyle(v) => v.val(),
            GraphicsContextValue::CapStyle(v) => v.val(),
            GraphicsContextValue::JoinStyle(v) => v.val(),
            GraphicsContextValue::FillStyle(v) => v.val(),
            GraphicsContextValue::FillRule(v) => v.val(),
            GraphicsContextValue::Tile(v) => *v,
            GraphicsContextValue::Stipple(v) => *v,
            GraphicsContextValue::TileStippleXOrigin(v) => *v as u32,
            GraphicsContextValue::TileStippleYOrigin(v) => *v as u32,
            GraphicsContextValue::Font(v) => *v,
            GraphicsContextValue::SubWindowMode(v) => v.val(),
            GraphicsContextValue::GraphicsExposures(v) => if *v { 1 } else { 0 },
            GraphicsContextValue::ClipXOrigin(v) => *v as u32,
            GraphicsContextValue::ClipYOrigin(v) => *v as u32,
            GraphicsContextValue::ClipMask(v) => *v,
            GraphicsContextValue::DashOffset(v) => *v as u32,
            GraphicsContextValue::Dashes(v) => *v as u32,
            GraphicsContextValue::ArcMode(v) => v.val(),
        }
    }
}

} // verus!
