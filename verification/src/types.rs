//! Block-type tags of the capture-container format.

use vstd::prelude::*;

verus! {

/// Type tag of a Section Header block.
pub const SECTION_HEADER_TAG: u32 = 0x0A0D0D0A;

/// Type tag of an Interface Description block.
pub const INTERFACE_DESCRIPTION_TAG: u32 = 1;

/// Type tag of an Enhanced Packet block.
pub const ENHANCED_PACKET_TAG: u32 = 6;

/// A rectangular drawing area: origin and size, in character cells.
#[derive(Clone, Copy, Debug, PartialEq, Eq, Structural)]
pub struct Rect {
    pub x: u16,
    pub y: u16,
    pub width: u16,
    pub height: u16,
}

/// The recognized block kinds; any other tag decodes as `Unknown`.
#[derive(Clone, Copy, Debug, PartialEq, Eq, Structural)]
pub enum BlockTypes {
    SectionHeaderBlock,
    InterfaceDescriptionBlock,
    EnhancedPacketBlock,
    Unknown,
}

/// The kind that a 32-bit type tag selects.
pub open spec fn spec_block_types_of(tag: int) -> BlockTypes {
    if tag == SECTION_HEADER_TAG {
        BlockTypes::SectionHeaderBlock
    } else if tag == INTERFACE_DESCRIPTION_TAG {
        BlockTypes::InterfaceDescriptionBlock
    } else if tag == ENHANCED_PACKET_TAG {
        BlockTypes::EnhancedPacketBlock
    } else {
        BlockTypes::Unknown
    }
}

/// Maps a 32-bit type tag to the block kind it names.
pub fn block_types_of(tag: u32) -> (r: BlockTypes)
    ensures
        r == spec_block_types_of(tag as int),
{
    if tag == SECTION_HEADER_TAG {
        BlockTypes::SectionHeaderBlock
    } else if tag == INTERFACE_DESCRIPTION_TAG {
        BlockTypes::InterfaceDescriptionBlock
    } else if tag == ENHANCED_PACKET_TAG {
        BlockTypes::EnhancedPacketBlock
    } else {
        BlockTypes::Unknown
    }
}

/// The display name of a block kind.
pub open spec fn spec_block_type_name(t: BlockTypes) -> Seq<char> {
    match t {
        BlockTypes::SectionHeaderBlock => "Section Header"@,
        BlockTypes::InterfaceDescriptionBlock => "Interface Description"@,
        BlockTypes::EnhancedPacketBlock => "Enhanced Packet"@,
        BlockTypes::Unknown => "Unknown"@,
    }
}

/// The display name of a block kind.
pub fn block_type_str(t: &BlockTypes) -> (r: String)
    ensures
        r@ == spec_block_type_name(*t),
{
    match t {
        BlockTypes::SectionHeaderBlock => String::from_str("Section Header"),
        BlockTypes::InterfaceDescriptionBlock => String::from_str("Interface Description"),
        BlockTypes::EnhancedPacketBlock => String::from_str("Enhanced Packet"),
        BlockTypes::Unknown => String::from_str("Unknown"),
    }
}

} // verus!
