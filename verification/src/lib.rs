//! A tiling window manager library built on a hand-rolled client for the
//! X window system's binary wire protocol.
//!
//! The crate is organised in layers, leaves first: `codec` holds the
//! byte-level writers and readers for the little-endian wire format;
//! `setup` encodes the connection handshake and parses its response;
//! `allocator` hands out unique 32-bit resource identifiers from the
//! server-granted base/mask pair; `models` holds the protocol's data
//! types; `tiling` is the binary space-partition tree that assigns each
//! managed window its on-screen rectangle; `manager` routes decoded
//! events to tree mutations and emits the requests that carry them out.
//! All transport I/O lives outside this crate: every function here maps
//! plain values to plain values.

pub mod allocator;
pub mod codec;
pub mod manager;
pub mod messages;
pub mod models;
pub mod requests;
pub mod settings;
pub mod setup;
pub mod tiling;
