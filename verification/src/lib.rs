//! Discovery of the USB device topology of a Windows host: host controllers,
//! hubs (nested hubs included) and leaf devices, with each device's standard
//! descriptor, its localized string fields and a stable hardware identity.
//!
//! This crate holds the verified core: the byte-exact decoding of the fixed
//! binary reply layouts of the USB hub driver interface, the bounded
//! language-fallback protocol for string descriptors, the identity
//! correlation, and the event-driven walk that assembles the topology.
//! The raw control requests themselves (opening a hub handle, issuing one
//! `DeviceIoControl`) are I/O and live outside this crate; a driver loop
//! performs each requested operation and hands the raw reply back.

use vstd::prelude::*;

pub mod codec;
pub mod descriptor;
pub mod identity;
pub mod strings;
pub mod walker;
pub mod wire;

verus! {

/// The fixed fallback language id (US English) used by the last round of
/// string-descriptor resolution.
pub const FALLBACK_LANG_ID: u16 = 0x0409;

} // verus!
