//! Verified core of a terminal inspector for a length-prefixed,
//! block-structured binary capture-container format.
//!
//! The library decodes a byte buffer into a sequence of typed blocks,
//! computes the section table (field layout) of each block, renders a
//! foldable hex/ASCII view row by row, and drives the scroll/cursor state
//! of the viewport.  Terminal handling, key dispatch and sidecar-file
//! loading are left to the surrounding application.

pub mod baseblock;
pub mod enhanced_packet;
pub mod hexview;
pub mod info;
pub mod interface_description;
pub mod loader;
pub mod pcapng;
pub mod section_header;
pub mod types;
pub mod util;

pub use util::div_ceil;
