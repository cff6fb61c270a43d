use pcapng_view::enhanced_packet::bluetooth_le_ll_with_phdr::BluetoothLELLWithPHDR;
use pcapng_view::loader::{Config, EnhancedPacketConfig, JConfig};
use pcapng_view::pcapng::{parse, to_ascii, to_hex, Block, BlockErrorKind, PngBlock};
use pcapng_view::types::BlockTypes;

fn push_u16(v: &mut Vec<u8>, x: u16) {
    v.extend_from_slice(&x.to_le_bytes());
}

fn push_u32(v: &mut Vec<u8>, x: u32) {
    v.extend_from_slice(&x.to_le_bytes());
}

fn push_u64(v: &mut Vec<u8>, x: u64) {
    v.extend_from_slice(&x.to_le_bytes());
}

fn section_header_block() -> Vec<u8> {
    let mut v = Vec::new();
    push_u32(&mut v, 0x0A0D0D0A);
    push_u32(&mut v, 28);
    push_u32(&mut v, 0x1A2B3C4D);
    push_u16(&mut v, 1);
    push_u16(&mut v, 0);
    push_u64(&mut v, u64::MAX); // section length -1: unspecified
    push_u32(&mut v, 28);
    assert_eq!(v.len(), 28);
    v
}

fn interface_description_block(link_type: u16, snap: u32) -> Vec<u8> {
    let mut v = Vec::new();
    push_u32(&mut v, 1);
    push_u32(&mut v, 20);
    push_u16(&mut v, link_type);
    push_u16(&mut v, 0);
    push_u32(&mut v, snap);
    push_u32(&mut v, 20);
    assert_eq!(v.len(), 20);
    v
}

fn enhanced_packet_block(interface_id: u32, payload: &[u8]) -> Vec<u8> {
    let total = 32 + payload.len() as u32;
    let mut v = Vec::new();
    push_u32(&mut v, 6);
    push_u32(&mut v, total);
    push_u32(&mut v, interface_id);
    push_u32(&mut v, 0); // timestamp upper
    push_u32(&mut v, 7); // timestamp lower
    push_u32(&mut v, payload.len() as u32); // captured length
    push_u32(&mut v, payload.len() as u32); // original length
    v.extend_from_slice(payload);
    push_u32(&mut v, total);
    assert_eq!(v.len() as u32, total);
    v
}

fn section_sum(block: &Block) -> usize {
    block.sections().iter().map(|s| s.1).sum()
}

#[test]
fn section_header_then_interface_description() {
    let mut data = section_header_block();
    data.extend_from_slice(&interface_description_block(1, 65535));
    let blocks = parse(&data, &Config::new());
    assert_eq!(blocks.len(), 2);
    assert_eq!(blocks[0].id(), 0);
    assert_eq!(blocks[1].id(), 1);
    assert_eq!(blocks[0].block_type(), BlockTypes::SectionHeaderBlock);
    assert_eq!(blocks[1].block_type(), BlockTypes::InterfaceDescriptionBlock);
    assert_eq!(blocks[0].error(), BlockErrorKind::NoError);
    assert_eq!(blocks[1].error(), BlockErrorKind::NoError);
    assert_eq!(blocks[0].title_line(), "0: Section Header");
    assert_eq!(blocks[1].title_line(), "1: Interface Description - Ethernet");
}

#[test]
fn zero_length_block_halts_decoding() {
    let mut data = Vec::new();
    push_u32(&mut data, 1);
    push_u32(&mut data, 0);
    // Further bytes follow, but decoding must stop at the zero length.
    data.extend_from_slice(&section_header_block());
    let blocks = parse(&data, &Config::new());
    assert_eq!(blocks.len(), 1);
    assert_eq!(blocks[0].error(), BlockErrorKind::ZeroLength);
}

#[test]
fn declared_length_past_end_is_truncated() {
    let mut data = Vec::new();
    push_u32(&mut data, 1);
    push_u32(&mut data, 100);
    push_u32(&mut data, 0);
    let blocks = parse(&data, &Config::new());
    assert_eq!(blocks.len(), 1);
    assert_eq!(blocks[0].error(), BlockErrorKind::Truncated);
}

#[test]
fn declared_length_below_minimum_is_truncated() {
    let mut data = Vec::new();
    push_u32(&mut data, 1);
    push_u32(&mut data, 8);
    push_u32(&mut data, 0);
    let blocks = parse(&data, &Config::new());
    assert_eq!(blocks.len(), 1);
    assert_eq!(blocks[0].error(), BlockErrorKind::Truncated);
}

#[test]
fn short_trailing_header_is_truncated() {
    let mut data = section_header_block();
    data.extend_from_slice(&[6, 0, 0]); // three stray bytes: no room for a header
    let blocks = parse(&data, &Config::new());
    assert_eq!(blocks.len(), 2);
    assert_eq!(blocks[0].error(), BlockErrorKind::NoError);
    assert_eq!(blocks[1].error(), BlockErrorKind::Truncated);
}

#[test]
fn unknown_tag_decodes_generically() {
    let mut data = Vec::new();
    push_u32(&mut data, 0xDEAD);
    push_u32(&mut data, 16);
    push_u32(&mut data, 0);
    push_u32(&mut data, 16);
    let blocks = parse(&data, &Config::new());
    assert_eq!(blocks.len(), 1);
    assert_eq!(blocks[0].block_type(), BlockTypes::Unknown);
    assert_eq!(blocks[0].title_line(), "0: Unknown");
    let sections = blocks[0].sections();
    assert_eq!(sections[0].0, "Block Type");
    assert_eq!(sections[2], ("Data".to_owned(), 4));
    assert_eq!(section_sum(&blocks[0]), 16);
}

#[test]
fn section_tables_sum_to_declared_length() {
    let mut data = section_header_block();
    data.extend_from_slice(&interface_description_block(1, 0));
    data.extend_from_slice(&enhanced_packet_block(0, &[0xAA; 14]));
    data.extend_from_slice(&{
        let mut v = Vec::new();
        push_u32(&mut v, 0xBEEF);
        push_u32(&mut v, 13);
        v.extend_from_slice(&[0; 5]);
        v
    });
    let blocks = parse(&data, &Config::new());
    assert_eq!(blocks.len(), 4);
    for b in &blocks {
        assert_eq!(b.error(), BlockErrorKind::NoError);
        assert_eq!(section_sum(b), b.length());
    }
}

#[test]
fn enhanced_packet_resolves_link_type_through_registry() {
    let mut data = section_header_block();
    data.extend_from_slice(&interface_description_block(1, 65535));
    data.extend_from_slice(&enhanced_packet_block(0, &[1, 2, 3, 4]));
    let blocks = parse(&data, &Config::new());
    assert_eq!(blocks.len(), 3);
    assert_eq!(blocks[2].title_line(), "2: Enhanced Packet - Ethernet");
    let sections = blocks[2].sections();
    assert_eq!(sections[2].0, "Interface ID - 0");
    assert_eq!(sections[4].0, "Timestamp Lower - 7");
    assert_eq!(sections[5].0, "Captured Packet Length - 4");
}

#[test]
fn enhanced_packet_picks_its_own_interface() {
    let mut data = section_header_block();
    data.extend_from_slice(&interface_description_block(113, 0)); // Linux SLL
    data.extend_from_slice(&interface_description_block(1, 0)); // Ethernet
    data.extend_from_slice(&enhanced_packet_block(1, &[5, 6]));
    data.extend_from_slice(&enhanced_packet_block(0, &[7, 8]));
    let blocks = parse(&data, &Config::new());
    assert_eq!(blocks.len(), 5);
    assert_eq!(blocks[3].title_line(), "3: Enhanced Packet - Ethernet");
    assert_eq!(blocks[4].title_line(), "4: Enhanced Packet - Linux SLL");
    match (&blocks[3], &blocks[4]) {
        (Block::EnhancedPacket(a), Block::EnhancedPacket(b)) => {
            assert_eq!(a.link_type, Some(1));
            assert_eq!(b.link_type, Some(113));
        }
        _ => panic!("expected enhanced packets"),
    }
}

#[test]
fn enhanced_packet_with_unknown_interface() {
    let mut data = section_header_block();
    data.extend_from_slice(&enhanced_packet_block(3, &[1, 2]));
    let blocks = parse(&data, &Config::new());
    assert_eq!(blocks.len(), 2);
    assert_eq!(blocks[1].error(), BlockErrorKind::NoError);
    assert_eq!(blocks[1].title_line(), "1: Enhanced Packet - Unknown");
    assert_eq!(section_sum(&blocks[1]), blocks[1].length());
}

#[test]
fn sidecar_sub_fields_are_spliced_and_labelled() {
    let config = JConfig {
        enhanced_packets: Some(vec![EnhancedPacketConfig {
            name: "Example".to_owned(),
            linktype: 1,
            sections: vec![("Alpha".to_owned(), 2), ("Beta".to_owned(), 3)],
        }]),
        link_types: None,
    }
    .into_config();
    let mut data = section_header_block();
    data.extend_from_slice(&interface_description_block(1, 0));
    // Payload: Alpha = 0x0201, Beta = 0x050403, then 4 data bytes.
    data.extend_from_slice(&enhanced_packet_block(0, &[1, 2, 3, 4, 5, 9, 9, 9, 9]));
    let blocks = parse(&data, &config);
    assert_eq!(blocks.len(), 3);
    let sections = blocks[2].sections();
    // Fixed fields, then the two configured sub-fields, then data/options.
    assert_eq!(sections[7], ("Alpha - 513".to_owned(), 2));
    assert_eq!(sections[8], ("Beta - 328707".to_owned(), 3));
    assert_eq!(sections[9], ("Data".to_owned(), 4));
    assert_eq!(sections[10], ("Options".to_owned(), 0));
    assert_eq!(section_sum(&blocks[2]), blocks[2].length());
}

#[test]
fn sidecar_sub_fields_overrunning_captured_length_truncate() {
    let config = JConfig {
        enhanced_packets: Some(vec![EnhancedPacketConfig {
            name: "Wide".to_owned(),
            linktype: 1,
            sections: vec![("Huge".to_owned(), 50)],
        }]),
        link_types: None,
    }
    .into_config();
    let mut data = section_header_block();
    data.extend_from_slice(&interface_description_block(1, 0));
    data.extend_from_slice(&enhanced_packet_block(0, &[0; 4]));
    let blocks = parse(&data, &config);
    assert_eq!(blocks.len(), 3);
    assert_eq!(blocks[2].error(), BlockErrorKind::Truncated);
}

#[test]
fn sidecar_link_type_names_extend_builtins() {
    let config = JConfig {
        enhanced_packets: None,
        link_types: Some(vec![(147, "User 0".to_owned())]),
    }
    .into_config();
    let mut data = section_header_block();
    data.extend_from_slice(&interface_description_block(147, 0));
    let blocks = parse(&data, &config);
    assert_eq!(blocks[1].title_line(), "1: Interface Description - User 0");
    assert_eq!(config.link_type_name(1), "Ethernet");
    assert_eq!(config.link_type_name(9999), "Unknown");
}

#[test]
fn bluetooth_sub_header_splices_radio_fields() {
    let mut data = section_header_block();
    data.extend_from_slice(&interface_description_block(256, 0));
    // Ten sub-header bytes, then four bytes of packet data.
    let payload: Vec<u8> = vec![37, 200, 190, 5, 0x11, 0x22, 0x33, 0x44, 3, 0, 9, 9, 9, 9];
    data.extend_from_slice(&enhanced_packet_block(0, &payload));
    let blocks = parse(&data, &Config::new());
    assert_eq!(blocks.len(), 3);
    let epb = match blocks.into_iter().nth(2).unwrap() {
        Block::EnhancedPacket(e) => e,
        _ => panic!("expected an enhanced packet"),
    };
    assert_eq!(epb.title_line(), "2: Enhanced Packet - Bluetooth LE LL with PHDR");
    let bt = BluetoothLELLWithPHDR::parse(&payload, epb);
    let sections = bt.sections();
    assert_eq!(sections[7], ("RF Channel - 37".to_owned(), 1));
    assert_eq!(sections[8], ("Signal Power - 200".to_owned(), 1));
    assert_eq!(sections[9], ("Noise Power - 190".to_owned(), 1));
    assert_eq!(sections[10], ("Access Address Offenses - 5".to_owned(), 1));
    assert_eq!(
        sections[11],
        ("Reference Access Address - 1144201745".to_owned(), 4)
    );
    assert_eq!(sections[12], ("Flags - 3".to_owned(), 2));
    assert_eq!(sections[13], ("Data".to_owned(), 4));
    let total: usize = sections.iter().map(|s| s.1).sum();
    assert_eq!(total, bt.length());
}

#[test]
fn hex_formatting() {
    assert_eq!(to_hex(&[]), "");
    assert_eq!(to_hex(&[0xAB]), "ab");
    assert_eq!(to_hex(&[0x00, 0x0F, 0xFF]), "00 0f ff");
}

#[test]
fn ascii_formatting() {
    assert_eq!(to_ascii(&[]), "");
    assert_eq!(to_ascii(&[b'A']), "A ");
    assert_eq!(to_ascii(&[b'A', 10, b'z']), "A  .  z ");
    // A space (32) is not printable here and renders as a dot.
    assert_eq!(to_ascii(&[32]), ". ");
}

#[test]
fn div_ceil_rounds_up() {
    assert_eq!(pcapng_view::div_ceil(0, 3), 0);
    assert_eq!(pcapng_view::div_ceil(9, 3), 3);
    assert_eq!(pcapng_view::div_ceil(10, 3), 4);
    assert_eq!(pcapng_view::div_ceil(u64::MAX, 1), u64::MAX);
}
