//! Sidecar configuration: extra link-type names and named sub-fields for
//! Enhanced Packet blocks.  Reading and deserializing the sidecar file is the
//! application's business; this module holds the resolved configuration and
//! the built-in link-type names.

use vstd::prelude::*;

use crate::pcapng::spec_sections_of_vec;

verus! {

/// Named sub-fields spliced into Enhanced Packet blocks of one link type.
pub struct EnhancedPacketConfig {
    pub name: String,
    pub linktype: u16,
    pub sections: Vec<(String, usize)>,
}

/// Model of an [`EnhancedPacketConfig`].
#[verifier::ext_equal]
pub ghost struct EpcV {
    pub name: Seq<char>,
    pub linktype: u16,
    pub sections: Seq<(Seq<char>, int)>,
}

impl View for EnhancedPacketConfig {
    type V = EpcV;

    open spec fn view(&self) -> EpcV {
        EpcV { name: self.name@, linktype: self.linktype, sections: spec_sections_of_vec(self.sections@) }
    }
}

/// The resolved configuration the decoder consults.
pub struct Config {
    pub enhanced_packets: Vec<EnhancedPacketConfig>,
    pub link_types: Vec<(u16, String)>,
}

/// Model of a [`Config`].
#[verifier::ext_equal]
pub ghost struct ConfigV {
    pub enhanced_packets: Seq<EpcV>,
    pub link_types: Seq<(u16, Seq<char>)>,
}

impl View for Config {
    type V = ConfigV;

    open spec fn view(&self) -> ConfigV {
        ConfigV {
            enhanced_packets: Seq::new(self.enhanced_packets@.len(), |i: int| self.enhanced_packets@[i]@),
            link_types: Seq::new(self.link_types@.len(), |i: int| (self.link_types@[i].0, self.link_types@[i].1@)),
        }
    }
}

/// The optional halves of a sidecar file, before defaults are applied.
pub struct JConfig {
    pub enhanced_packets: Option<Vec<EnhancedPacketConfig>>,
    pub link_types: Option<Vec<(u16, String)>>,
}

/// The name of a link-type code: the first entry of `links` that carries
/// `code`, or "Unknown".
pub open spec fn spec_link_name(links: Seq<(u16, Seq<char>)>, code: u16) -> Seq<char>
    decreases links.len(),
{
    if links.len() == 0 {
        "Unknown"@
    } else if links[0].0 == code {
        links[0].1
    } else {
        spec_link_name(links.drop_first(), code)
    }
}

/// The sub-field table for `code`: the first entry of `entries` whose link
/// type is `code`, if any.
pub open spec fn spec_epb_entry(entries: Seq<EpcV>, code: u16) -> Option<EpcV>
    decreases entries.len(),
{
    if entries.len() == 0 {
        Option::None
    } else if entries[0].linktype == code {
        Option::Some(entries[0])
    } else {
        spec_epb_entry(entries.drop_first(), code)
    }
}

/// The link-type names known without any sidecar.
pub open spec fn spec_builtin_link_types() -> Seq<(u16, Seq<char>)> {
    seq![
        (0u16, "Null"@),
        (1u16, "Ethernet"@),
        (101u16, "Raw IP"@),
        (105u16, "IEEE 802.11"@),
        (113u16, "Linux SLL"@),
        (127u16, "Radiotap"@),
        (251u16, "Bluetooth LE LL"@),
        (256u16, "Bluetooth LE LL with PHDR"@),
    ]
}

/// The built-in link-type name table.
pub fn builtin_link_types() -> (r: Vec<(u16, String)>)
    ensures
        Seq::new(r@.len(), |i: int| (r@[i].0, r@[i].1@)) == spec_builtin_link_types(),
{
    let mut v: Vec<(u16, String)> = Vec::new();
    v.push((0, String::from_str("Null")));
    v.push((1, String::from_str("Ethernet")));
    v.push((101, String::from_str("Raw IP")));
    v.push((105, String::from_str("IEEE 802.11")));
    v.push((113, String::from_str("Linux SLL")));
    v.push((127, String::from_str("Radiotap")));
    v.push((251, String::from_str("Bluetooth LE LL")));
    v.push((256, String::from_str("Bluetooth LE LL with PHDR")));
    proof {
        assert(Seq::new(v@.len(), |i: int| (v@[i].0, v@[i].1@)) =~= spec_builtin_link_types());
    }
    v
}

impl Config {
    /// The configuration in force without a sidecar: the built-in link-type
    /// names and no extra sub-fields.
    pub fn new() -> (r: Config)
        ensures
            r@.enhanced_packets == Seq::<EpcV>::empty(),
            r@.link_types == spec_builtin_link_types(),
    {
        let c = Config { enhanced_packets: Vec::new(), link_types: builtin_link_types() };
        proof {
            assert(c@.enhanced_packets =~= Seq::<EpcV>::empty());
            assert(c@.link_types =~= spec_builtin_link_types());
        }
        c
    }

    /// Resolves a link-type code to its display name, "Unknown" when no
    /// entry carries the code.
    pub fn link_type_name(&self, code: u16) -> (r: String)
        ensures
            r@ == spec_link_name(self@.link_types, code),
    {
        let ghost links = self@.link_types;
        proof {
            assert(links.skip(0) =~= links);
        }
        let n = self.link_types.len();
        for i in 0..n
            invariant
                n == self.link_types@.len(),
                links == self@.link_types,
                spec_link_name(links.skip(i as int), code) == spec_link_name(links, code),
                forall|k: int| 0 <= k < i ==> links[k].0 != code,
        {
            if self.link_types[i].0 == code {
                proof {
                    assert(links.skip(i as int)[0] == links[i as int]);
                }
                return self.link_types[i].1.clone();
            }
            proof {
                assert(links.skip(i as int).drop_first() =~= links.skip(i as int + 1));
                assert(links.skip(i as int)[0] == links[i as int]);
            }
        }
        proof {
            assert(links.skip(n as int) =~= Seq::<(u16, Seq<char>)>::empty());
        }
        String::from_str("Unknown")
    }

    /// Looks up the sub-field table configured for a link-type code.
    pub fn enhanced_packet_entry(&self, code: u16) -> (r: Option<&EnhancedPacketConfig>)
        ensures
            match r {
                Option::Some(e) => spec_epb_entry(self@.enhanced_packets, code) == Option::Some(e@),
                Option::None => spec_epb_entry(self@.enhanced_packets, code) == Option::None::<EpcV>,
            },
    {
        let ghost entries = self@.enhanced_packets;
        proof {
            assert(entries.skip(0) =~= entries);
        }
        let n = self.enhanced_packets.len();
        for i in 0..n
            invariant
                n == self.enhanced_packets@.len(),
                entries == self@.enhanced_packets,
                spec_epb_entry(entries.skip(i as int), code) == spec_epb_entry(entries, code),
                forall|k: int| 0 <= k < i ==> entries[k].linktype != code,
        {
            if self.enhanced_packets[i].linktype == code {
                proof {
                    assert(entries.skip(i as int)[0] == entries[i as int]);
                }
                return Some(&self.enhanced_packets[i]);
            }
            proof {
                assert(entries.skip(i as int).drop_first() =~= entries.skip(i as int + 1));
                assert(entries.skip(i as int)[0] == entries[i as int]);
            }
        }
        proof {
            assert(entries.skip(n as int) =~= Seq::<EpcV>::empty());
        }
        None
    }
}

impl JConfig {
    /// Applies defaults: absent halves become empty, and the sidecar's extra
    /// link-type names are appended after the built-in ones.
    pub fn into_config(self) -> (r: Config)
        ensures
            r@.enhanced_packets == (match self.enhanced_packets {
                Option::Some(v) => Seq::new(v@.len(), |i: int| v@[i]@),
                Option::None => Seq::<EpcV>::empty(),
            }),
            r@.link_types == spec_builtin_link_types() + (match self.link_types {
                Option::Some(v) => Seq::new(v@.len(), |i: int| (v@[i].0, v@[i].1@)),
                Option::None => Seq::<(u16, Seq<char>)>::empty(),
            }),
    {
        let ghost me = self;
        let JConfig { enhanced_packets, link_types } = self;
        let packets = match enhanced_packets {
            Some(v) => v,
            None => Vec::new(),
        };
        let mut links = builtin_link_types();
        let mut extra = match link_types {
            Some(v) => v,
            None => Vec::new(),
        };
        links.append(&mut extra);
        let c = Config { enhanced_packets: packets, link_types: links };
        proof {
            assert(c@.enhanced_packets =~= (match me.enhanced_packets {
                Option::Some(v) => Seq::new(v@.len(), |i: int| v@[i]@),
                Option::None => Seq::<EpcV>::empty(),
            }));
            assert(c@.link_types =~= spec_builtin_link_types() + (match me.link_types {
                Option::Some(v) => Seq::new(v@.len(), |i: int| (v@[i].0, v@[i].1@)),
                Option::None => Seq::<(u16, Seq<char>)>::empty(),
            }));
        }
        c
    }
}

} // verus!
