//! The Bluetooth LE link-layer sub-header an Enhanced Packet block can
//! carry: radio metadata read from the first ten bytes of the captured
//! packet data.

use vstd::prelude::*;

use crate::enhanced_packet::EnhancedPacket;
use crate::pcapng::{
    lemma_sum_concat, lemma_sum_split_at, spec_sections_of_vec, sum_section_lens, BlockErrorKind,
    BlockV, PngBlock,
};
use crate::types::BlockTypes;
use crate::util::{le16, le32, read_le_u16, read_le_u32, spec_dec, u32_to_dec};

verus! {

/// An Enhanced Packet block refined with the Bluetooth LE link-layer
/// sub-header.
pub struct BluetoothLELLWithPHDR {
    pub base: EnhancedPacket,
    pub rf_channel: u8,
    pub signal_power: u8,
    pub noise_power: u8,
    pub access_address_offenses: u8,
    pub reference_access_address: u32,
    pub flags: u16,
}

/// The seven entries the sub-header splices in place of the packet-data
/// entry: six radio fields and the data that remains after them.
pub open spec fn spec_bt_entries(
    rf: int,
    sig: int,
    noise: int,
    aao: int,
    raa: int,
    flags: int,
    cap: int,
) -> Seq<(Seq<char>, int)> {
    seq![
        ("RF Channel - "@ + spec_dec(rf), 1),
        ("Signal Power - "@ + spec_dec(sig), 1),
        ("Noise Power - "@ + spec_dec(noise), 1),
        ("Access Address Offenses - "@ + spec_dec(aao), 1),
        ("Reference Access Address - "@ + spec_dec(raa), 4),
        ("Flags - "@ + spec_dec(flags), 2),
        ("Data"@, cap - 10),
    ]
}

/// The spliced entries span exactly the captured length they replace.
pub proof fn lemma_bt_entries_sum(rf: int, sig: int, noise: int, aao: int, raa: int, flags: int, cap: int)
    ensures
        sum_section_lens(spec_bt_entries(rf, sig, noise, aao, raa, flags, cap)) == cap,
{
    reveal_with_fuel(sum_section_lens, 9);
    let s = spec_bt_entries(rf, sig, noise, aao, raa, flags, cap);
    assert(sum_section_lens(s) == cap) by {
        assert(s.drop_last() =~= s.take(6));
        assert(s.take(6).drop_last() =~= s.take(5));
        assert(s.take(5).drop_last() =~= s.take(4));
        assert(s.take(4).drop_last() =~= s.take(3));
        assert(s.take(3).drop_last() =~= s.take(2));
        assert(s.take(2).drop_last() =~= s.take(1));
        assert(s.take(1).drop_last() =~= s.take(0));
        assert(s.take(0) =~= Seq::<(Seq<char>, int)>::empty());
    };
}

/// The plain Enhanced Packet table — no configured sub-fields — has ten
/// entries, the eighth holding the captured packet data.
proof fn lemma_plain_epb_table(length: int, iface: int, tsu: int, tsl: int, cap: int, orig: int)
    ensures
        crate::enhanced_packet::spec_epb_sections(
            length,
            iface,
            tsu,
            tsl,
            cap,
            orig,
            Seq::empty(),
            0,
        ).len() == 10,
        crate::enhanced_packet::spec_epb_sections(
            length,
            iface,
            tsu,
            tsl,
            cap,
            orig,
            Seq::empty(),
            0,
        )[7] == ("Data"@, cap),
{
    let s = crate::enhanced_packet::spec_epb_sections(
        length,
        iface,
        tsu,
        tsl,
        cap,
        orig,
        Seq::empty(),
        0,
    );
    let pre = seq![
        ("Block Type"@, 4int),
        ("Block Length"@, 4int),
        ("Interface ID - "@ + spec_dec(iface), 4int),
        ("Timestamp Upper - "@ + spec_dec(tsu), 4int),
        ("Timestamp Lower - "@ + spec_dec(tsl), 4int),
        ("Captured Packet Length - "@ + spec_dec(cap), 4int),
        ("Original Packet Length - "@ + spec_dec(orig), 4int),
    ];
    let tail = seq![("Data"@, cap - 0), ("Options"@, length - 32 - cap), ("Block Length"@, 4int)];
    assert(s =~= pre + tail);
    assert((pre + tail)[7] == tail[0]);
}

impl BluetoothLELLWithPHDR {
    /// Bytes of the fixed parts: the Enhanced Packet fields plus the ten
    /// bytes of the sub-header.
    pub const SIZE: usize = 42;

    /// Reads the sub-header from `data`, the captured packet data of `base`.
    /// `base` must be an intact Enhanced Packet decoded without configured
    /// sub-fields — its table is exactly the plain Enhanced Packet table —
    /// whose captured length covers the sub-header.
    pub fn parse(data: &[u8], base: EnhancedPacket) -> (r: BluetoothLELLWithPHDR)
        requires
            data@.len() >= 10,
            base.inv(),
            base.base.error_ == BlockErrorKind::NoError,
            base.captured_packet_length >= 10,
            base.bv().sections == crate::enhanced_packet::spec_epb_sections(
                base.base.length_ as int,
                base.interface_id as int,
                base.timestamp_upper as int,
                base.timestamp_lower as int,
                base.captured_packet_length as int,
                base.original_packet_length as int,
                Seq::empty(),
                0,
            ),
        ensures
            r.inv(),
            r.base == base,
            r.rf_channel == data@[0],
            r.signal_power == data@[1],
            r.noise_power == data@[2],
            r.access_address_offenses == data@[3],
            r.reference_access_address as int == le32(data@, 4),
            r.flags as int == le16(data@, 8),
    {
        proof {
            lemma_plain_epb_table(
                base.base.length_ as int,
                base.interface_id as int,
                base.timestamp_upper as int,
                base.timestamp_lower as int,
                base.captured_packet_length as int,
                base.original_packet_length as int,
            );
        }
        let rf_channel = data[0];
        let signal_power = data[1];
        let noise_power = data[2];
        let access_address_offenses = data[3];
        let reference_access_address = read_le_u32(data, 4);
        let flags = read_le_u16(data, 8);
        BluetoothLELLWithPHDR {
            base,
            rf_channel,
            signal_power,
            noise_power,
            access_address_offenses,
            reference_access_address,
            flags,
        }
    }
}

impl PngBlock for BluetoothLELLWithPHDR {
    open spec fn bv(&self) -> BlockV {
        BlockV {
            sections: self.base.bv().sections.take(7) + spec_bt_entries(
                self.rf_channel as int,
                self.signal_power as int,
                self.noise_power as int,
                self.access_address_offenses as int,
                self.reference_access_address as int,
                self.flags as int,
                self.base.captured_packet_length as int,
            ) + self.base.bv().sections.skip(8),
            ..self.base.bv()
        }
    }

    open spec fn inv(&self) -> bool {
        &&& self.base.inv()
        &&& self.base.base.error_ == BlockErrorKind::NoError
        &&& self.base.captured_packet_length >= 10
        &&& self.base.bv().sections.len() == 10
        &&& self.base.bv().sections[7] == ("Data"@, self.base.captured_packet_length as int)
    }

    fn rows(&self, width: u16) -> (r: u64) {
        self.base.rows(width)
    }

    fn sections(&self) -> (r: Vec<(String, usize)>) {
        let ghost entries = spec_bt_entries(
            self.rf_channel as int,
            self.signal_power as int,
            self.noise_power as int,
            self.access_address_offenses as int,
            self.reference_access_address as int,
            self.flags as int,
            self.base.captured_packet_length as int,
        );
        let b = self.base.sections();
        let mut v: Vec<(String, usize)> = Vec::new();
        for i in 0..7usize
            invariant
                b@.len() == 10,
                spec_sections_of_vec(b@) == self.base.bv().sections,
                v@.len() == i,
                forall|k: int| 0 <= k < i ==> v@[k] == b@[k],
        {
            v.push((b[i].0.clone(), b[i].1));
        }
        proof {
            assert(spec_sections_of_vec(v@) =~= self.base.bv().sections.take(7));
        }
        v.push((String::from_str("RF Channel - ").concat(u32_to_dec(self.rf_channel as u32).as_str()), 1));
        v.push((
            String::from_str("Signal Power - ").concat(u32_to_dec(self.signal_power as u32).as_str()),
            1,
        ));
        v.push((
            String::from_str("Noise Power - ").concat(u32_to_dec(self.noise_power as u32).as_str()),
            1,
        ));
        v.push((
            String::from_str("Access Address Offenses - ").concat(
                u32_to_dec(self.access_address_offenses as u32).as_str(),
            ),
            1,
        ));
        v.push((
            String::from_str("Reference Access Address - ").concat(
                u32_to_dec(self.reference_access_address).as_str(),
            ),
            4,
        ));
        v.push((String::from_str("Flags - ").concat(u32_to_dec(self.flags as u32).as_str()), 2));
        v.push((String::from_str("Data"), (self.base.captured_packet_length as usize) - 10));
        let ghost mid = v@;
        proof {
            assert(spec_sections_of_vec(mid) =~= self.base.bv().sections.take(7) + entries);
            assert(mid.take(mid.len() as int) =~= mid);
        }
        for i in 8..10usize
            invariant
                b@.len() == 10,
                mid.len() == 14,
                spec_sections_of_vec(b@) == self.base.bv().sections,
                spec_sections_of_vec(mid) == self.base.bv().sections.take(7) + entries,
                v@.len() == mid.len() + i - 8,
                v@.take(mid.len() as int) == mid,
                forall|k: int| 8 <= k < i ==> v@[mid.len() + k - 8] == b@[k],
        {
            proof {
                assert(v@.push((b@[i as int].0, b@[i as int].1)).take(mid.len() as int) =~= v@.take(
                    mid.len() as int,
                ));
            }
            v.push((b[i].0.clone(), b[i].1));
        }
        proof {
            assert forall|k: int| 0 <= k < 14 implies v@[k] == mid[k] by {
                assert(v@.take(mid.len() as int)[k] == v@[k]);
            }
            assert(spec_sections_of_vec(v@) =~= self.base.bv().sections.take(7) + entries
                + self.base.bv().sections.skip(8));
            assert(spec_sections_of_vec(v@) =~= self.bv().sections);
            lemma_bt_entries_sum(
                self.rf_channel as int,
                self.signal_power as int,
                self.noise_power as int,
                self.access_address_offenses as int,
                self.reference_access_address as int,
                self.flags as int,
                self.base.captured_packet_length as int,
            );
            lemma_sum_split_at(self.base.bv().sections, 7);
            let entries = spec_bt_entries(
                self.rf_channel as int,
                self.signal_power as int,
                self.noise_power as int,
                self.access_address_offenses as int,
                self.reference_access_address as int,
                self.flags as int,
                self.base.captured_packet_length as int,
            );
            lemma_sum_concat(
                self.base.bv().sections.take(7) + entries,
                self.base.bv().sections.skip(8),
            );
            lemma_sum_concat(self.base.bv().sections.take(7), entries);
        }
        v
    }

    fn error(&self) -> (r: BlockErrorKind) {
        self.base.base.error_
    }

    fn id(&self) -> (r: u32) {
        self.base.base.id_
    }

    fn length(&self) -> (r: usize) {
        self.base.base.length_ as usize
    }

    fn block_type(&self) -> (r: BlockTypes) {
        self.base.base.block_type_
    }

    fn title_line(&self) -> (r: String) {
        self.base.title_line()
    }

    proof fn inv_properties(&self) {
    }

    fn raw(&self) -> (r: &Vec<u8>) {
        &self.base.base.raw_
    }
}

} // verus!

