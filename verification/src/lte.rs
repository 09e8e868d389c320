//! LTE RRC over-the-air records. The record's header comes in four layouts,
//! chosen by the header version that precedes it; whichever was read, the
//! packet answers the same questions.

use vstd::prelude::*;
use crate::error::{FrameError, Field};
use crate::wire::{read_bytes, read_u16, read_u32, read_u8, u16_at, u32_at};

verus! {

/// One of the four header layouts of an LTE RRC record.
#[derive(Clone, Copy, Debug, PartialEq, Eq, Structural)]
pub enum PacketLayout {
    V0,
    V5,
    V8,
    V25,
}

impl PacketLayout {
    /// The header versions that are read with this layout.
    pub open spec fn covers(self, version: u8) -> bool {
        match self {
            PacketLayout::V0 => version <= 4,
            PacketLayout::V5 => 5 <= version <= 7,
            PacketLayout::V8 => 8 <= version <= 24,
            PacketLayout::V25 => 25 <= version,
        }
    }

    /// The number of bytes in front of the payload.
    pub open spec fn header_len(self) -> int {
        match self {
            PacketLayout::V0 => 12,
            PacketLayout::V5 => 16,
            PacketLayout::V8 => 18,
            PacketLayout::V25 => 20,
        }
    }

    /// The layout that a header version is read with: the first for the
    /// versions up to 4, the second up to 7, the third up to 24, and the
    /// fourth from 25 on.
    pub open spec fn of_version(version: u8) -> PacketLayout {
        if version <= 4 {
            PacketLayout::V0
        } else if version <= 7 {
            PacketLayout::V5
        } else if version <= 24 {
            PacketLayout::V8
        } else {
            PacketLayout::V25
        }
    }

    /// The place of the frame and subframe number in a header of this
    /// layout.
    pub open spec fn sfn_subfn_at(self) -> int {
        match self {
            PacketLayout::V0 => 7,
            PacketLayout::V5 => 7,
            PacketLayout::V8 => 9,
            PacketLayout::V25 => 11,
        }
    }

    /// The layout that a header version is read with.
    pub fn for_version(version: u8) -> (layout: PacketLayout)
        ensures
            layout == PacketLayout::of_version(version),
            layout.covers(version),
            forall|other: PacketLayout| other.covers(version) ==> other == layout,
    {
        if version <= 4 {
            PacketLayout::V0
        } else if version <= 7 {
            PacketLayout::V5
        } else if version <= 24 {
            PacketLayout::V8
        } else {
            PacketLayout::V25
        }
    }
}

/// Every header version is read with exactly one layout: the four ranges
/// leave no version out and no two of them share one.
pub proof fn lemma_layouts_partition(version: u8)
    ensures
        exists|layout: PacketLayout| #[trigger] layout.covers(version),
        forall|a: PacketLayout, b: PacketLayout|
            a.covers(version) && b.covers(version) ==> a == b,
{
    if version <= 4 {
        assert(PacketLayout::V0.covers(version));
    } else if version <= 7 {
        assert(PacketLayout::V5.covers(version));
    } else if version <= 24 {
        assert(PacketLayout::V8.covers(version));
    } else {
        assert(PacketLayout::V25.covers(version));
    }
}

/// An LTE RRC record behind its header version.
#[allow(inconsistent_fields)]
#[derive(Debug, Clone, PartialEq)]
pub enum LteRrcOtaPacket {
    V0 {
        rrc_rel_maj: u8,
        rrc_rel_min: u8,
        bearer_id: u8,
        phy_cell_id: u16,
        earfcn: u16,
        sfn_subfn: u16,
        pdu_num: u8,
        len: u16,
        packet: Vec<u8>,
    },
    V5 {
        rrc_rel_maj: u8,
        rrc_rel_min: u8,
        bearer_id: u8,
        phy_cell_id: u16,
        earfcn: u16,
        sfn_subfn: u16,
        pdu_num: u8,
        sib_mask: u32,
        len: u16,
        packet: Vec<u8>,
    },
    V8 {
        rrc_rel_maj: u8,
        rrc_rel_min: u8,
        bearer_id: u8,
        phy_cell_id: u16,
        earfcn: u32,
        sfn_subfn: u16,
        pdu_num: u8,
        sib_mask: u32,
        len: u16,
        packet: Vec<u8>,
    },
    V25 {
        rrc_rel_maj: u8,
        rrc_rel_min: u8,
        nr_rrc_rel_maj: u8,
        nr_rrc_rel_min: u8,
        bearer_id: u8,
        phy_cell_id: u16,
        earfcn: u32,
        sfn_subfn: u16,
        pdu_num: u8,
        sib_mask: u32,
        len: u16,
        packet: Vec<u8>,
    },
}

/// What an `LteRrcOtaPacket` holds, with the payload as a sequence.
#[allow(inconsistent_fields)]
pub enum LteRrcOtaPacketView {
    V0 {
        rrc_rel_maj: u8,
        rrc_rel_min: u8,
        bearer_id: u8,
        phy_cell_id: u16,
        earfcn: u16,
        sfn_subfn: u16,
        pdu_num: u8,
        len: u16,
        packet: Seq<u8>,
    },
    V5 {
        rrc_rel_maj: u8,
        rrc_rel_min: u8,
        bearer_id: u8,
        phy_cell_id: u16,
        earfcn: u16,
        sfn_subfn: u16,
        pdu_num: u8,
        sib_mask: u32,
        len: u16,
        packet: Seq<u8>,
    },
    V8 {
        rrc_rel_maj: u8,
        rrc_rel_min: u8,
        bearer_id: u8,
        phy_cell_id: u16,
        earfcn: u32,
        sfn_subfn: u16,
        pdu_num: u8,
        sib_mask: u32,
        len: u16,
        packet: Seq<u8>,
    },
    V25 {
        rrc_rel_maj: u8,
        rrc_rel_min: u8,
        nr_rrc_rel_maj: u8,
        nr_rrc_rel_min: u8,
        bearer_id: u8,
        phy_cell_id: u16,
        earfcn: u32,
        sfn_subfn: u16,
        pdu_num: u8,
        sib_mask: u32,
        len: u16,
        packet: Seq<u8>,
    },
}

impl View for LteRrcOtaPacket {
    type V = LteRrcOtaPacketView;

    open spec fn view(&self) -> LteRrcOtaPacketView {
        match *self {
            LteRrcOtaPacket::V0 {
                rrc_rel_maj,
                rrc_rel_min,
                bearer_id,
                phy_cell_id,
                earfcn,
                sfn_subfn,
                pdu_num,
                len,
                packet,
            } => LteRrcOtaPacketView::V0 {
                rrc_rel_maj,
                rrc_rel_min,
                bearer_id,
                phy_cell_id,
                earfcn,
                sfn_subfn,
                pdu_num,
                len,
                packet: packet@,
            },
            LteRrcOtaPacket::V5 {
                rrc_rel_maj,
                rrc_rel_min,
                bearer_id,
                phy_cell_id,
                earfcn,
                sfn_subfn,
                pdu_num,
                sib_mask,
                len,
                packet,
            } => LteRrcOtaPacketView::V5 {
                rrc_rel_maj,
                rrc_rel_min,
                bearer_id,
                phy_cell_id,
                earfcn,
                sfn_subfn,
                pdu_num,
                sib_mask,
                len,
                packet: packet@,
            },
            LteRrcOtaPacket::V8 {
                rrc_rel_maj,
                rrc_rel_min,
                bearer_id,
                phy_cell_id,
                earfcn,
                sfn_subfn,
                pdu_num,
                sib_mask,
                len,
                packet,
            } => LteRrcOtaPacketView::V8 {
                rrc_rel_maj,
                rrc_rel_min,
                bearer_id,
                phy_cell_id,
                earfcn,
                sfn_subfn,
                pdu_num,
                sib_mask,
                len,
                packet: packet@,
            },
            LteRrcOtaPacket::V25 {
                rrc_rel_maj,
                rrc_rel_min,
                nr_rrc_rel_maj,
                nr_rrc_rel_min,
                bearer_id,
                phy_cell_id,
                earfcn,
                sfn_subfn,
                pdu_num,
                sib_mask,
                len,
                packet,
            } => LteRrcOtaPacketView::V25 {
                rrc_rel_maj,
                rrc_rel_min,
                nr_rrc_rel_maj,
                nr_rrc_rel_min,
                bearer_id,
                phy_cell_id,
                earfcn,
                sfn_subfn,
                pdu_num,
                sib_mask,
                len,
                packet: packet@,
            },
        }
    }
}

impl LteRrcOtaPacketView {
    /// The layout that this packet was read with.
    pub open spec fn layout(self) -> PacketLayout {
        match self {
            LteRrcOtaPacketView::V0 { .. } => PacketLayout::V0,
            LteRrcOtaPacketView::V5 { .. } => PacketLayout::V5,
            LteRrcOtaPacketView::V8 { .. } => PacketLayout::V8,
            LteRrcOtaPacketView::V25 { .. } => PacketLayout::V25,
        }
    }

    /// The combined frame and subframe number, as it stands in the header.
    pub open spec fn sfn_subfn(self) -> u16 {
        match self {
            LteRrcOtaPacketView::V0 { sfn_subfn, .. } => sfn_subfn,
            LteRrcOtaPacketView::V5 { sfn_subfn, .. } => sfn_subfn,
            LteRrcOtaPacketView::V8 { sfn_subfn, .. } => sfn_subfn,
            LteRrcOtaPacketView::V25 { sfn_subfn, .. } => sfn_subfn,
        }
    }

    /// The system frame number: the header's number without its lowest four bits.
    pub open spec fn sfn(self) -> int {
        self.sfn_subfn() as int / 16
    }

    /// The subframe index: the lowest four bits of the header's number.
    pub open spec fn subfn(self) -> int {
        self.sfn_subfn() as int % 16
    }

    /// The sequence number of the PDU.
    pub open spec fn pdu_num(self) -> u8 {
        match self {
            LteRrcOtaPacketView::V0 { pdu_num, .. } => pdu_num,
            LteRrcOtaPacketView::V5 { pdu_num, .. } => pdu_num,
            LteRrcOtaPacketView::V8 { pdu_num, .. } => pdu_num,
            LteRrcOtaPacketView::V25 { pdu_num, .. } => pdu_num,
        }
    }

    /// The channel number, which the two older layouts hold in 16 bits.
    pub open spec fn earfcn(self) -> int {
        match self {
            LteRrcOtaPacketView::V0 { earfcn, .. } => earfcn as int,
            LteRrcOtaPacketView::V5 { earfcn, .. } => earfcn as int,
            LteRrcOtaPacketView::V8 { earfcn, .. } => earfcn as int,
            LteRrcOtaPacketView::V25 { earfcn, .. } => earfcn as int,
        }
    }

    /// The length that the header declares for the payload.
    pub open spec fn len(self) -> u16 {
        match self {
            LteRrcOtaPacketView::V0 { len, .. } => len,
            LteRrcOtaPacketView::V5 { len, .. } => len,
            LteRrcOtaPacketView::V8 { len, .. } => len,
            LteRrcOtaPacketView::V25 { len, .. } => len,
        }
    }

    /// The payload behind the header.
    pub open spec fn payload(self) -> Seq<u8> {
        match self {
            LteRrcOtaPacketView::V0 { packet, .. } => packet,
            LteRrcOtaPacketView::V5 { packet, .. } => packet,
            LteRrcOtaPacketView::V8 { packet, .. } => packet,
            LteRrcOtaPacketView::V25 { packet, .. } => packet,
        }
    }
}

/// The frame number and the subframe index together give back the header's
/// number, whatever the layout and whatever the number.
pub proof fn lemma_sfn_subfn_recombine(packet: LteRrcOtaPacketView)
    ensures
        packet.sfn() * 16 + packet.subfn() == packet.sfn_subfn(),
        0 <= packet.subfn() < 16,
        0 <= packet.sfn() < 4096,
{
}

/// The field of the first layout in which a header of `avail` bytes ends
/// too early, if it does.
pub open spec fn v0_cut(avail: int) -> Option<Field> {
    if avail < 1 {
        Some(Field::RrcRelMaj)
    } else if avail < 2 {
        Some(Field::RrcRelMin)
    } else if avail < 3 {
        Some(Field::BearerId)
    } else if avail < 5 {
        Some(Field::PhyCellId)
    } else if avail < 7 {
        Some(Field::Earfcn)
    } else if avail < 9 {
        Some(Field::SfnSubfn)
    } else if avail < 10 {
        Some(Field::PduNum)
    } else if avail < 12 {
        Some(Field::Len)
    } else {
        None
    }
}

/// The same for the second layout, which adds the SIB mask.
pub open spec fn v5_cut(avail: int) -> Option<Field> {
    if avail < 10 {
        v0_cut(avail)
    } else if avail < 14 {
        Some(Field::SibMask)
    } else if avail < 16 {
        Some(Field::Len)
    } else {
        None
    }
}

/// The same for the third layout, whose channel number has 32 bits.
pub open spec fn v8_cut(avail: int) -> Option<Field> {
    if avail < 5 {
        v0_cut(avail)
    } else if avail < 9 {
        Some(Field::Earfcn)
    } else if avail < 11 {
        Some(Field::SfnSubfn)
    } else if avail < 12 {
        Some(Field::PduNum)
    } else if avail < 16 {
        Some(Field::SibMask)
    } else if avail < 18 {
        Some(Field::Len)
    } else {
        None
    }
}

/// The same for the fourth layout, which adds the NR release.
pub open spec fn v25_cut(avail: int) -> Option<Field> {
    if avail < 2 {
        v0_cut(avail)
    } else if avail < 3 {
        Some(Field::NrRrcRelMaj)
    } else if avail < 4 {
        Some(Field::NrRrcRelMin)
    } else if avail < 5 {
        Some(Field::BearerId)
    } else if avail < 7 {
        Some(Field::PhyCellId)
    } else if avail < 11 {
        Some(Field::Earfcn)
    } else if avail < 13 {
        Some(Field::SfnSubfn)
    } else if avail < 14 {
        Some(Field::PduNum)
    } else if avail < 18 {
        Some(Field::SibMask)
    } else if avail < 20 {
        Some(Field::Len)
    } else {
        None
    }
}

/// The field in which a header of `avail` bytes ends too early.
pub open spec fn header_cut(layout: PacketLayout, avail: int) -> Option<Field> {
    match layout {
        PacketLayout::V0 => v0_cut(avail),
        PacketLayout::V5 => v5_cut(avail),
        PacketLayout::V8 => v8_cut(avail),
        PacketLayout::V25 => v25_cut(avail),
    }
}

/// The packet whose complete header stands at `at`, with `packet` for payload.
pub open spec fn packet_at(layout: PacketLayout, s: Seq<u8>, at: int, packet: Seq<u8>)
    -> LteRrcOtaPacketView {
    match layout {
        PacketLayout::V0 => LteRrcOtaPacketView::V0 {
            rrc_rel_maj: s[at],
            rrc_rel_min: s[at + 1],
            bearer_id: s[at + 2],
            phy_cell_id: u16_at(s, at + 3),
            earfcn: u16_at(s, at + 5),
            sfn_subfn: u16_at(s, at + 7),
            pdu_num: s[at + 9],
            len: u16_at(s, at + 10),
            packet,
        },
        PacketLayout::V5 => LteRrcOtaPacketView::V5 {
            rrc_rel_maj: s[at],
            rrc_rel_min: s[at + 1],
            bearer_id: s[at + 2],
            phy_cell_id: u16_at(s, at + 3),
            earfcn: u16_at(s, at + 5),
            sfn_subfn: u16_at(s, at + 7),
            pdu_num: s[at + 9],
            sib_mask: u32_at(s, at + 10),
            len: u16_at(s, at + 14),
            packet,
        },
        PacketLayout::V8 => LteRrcOtaPacketView::V8 {
            rrc_rel_maj: s[at],
            rrc_rel_min: s[at + 1],
            bearer_id: s[at + 2],
            phy_cell_id: u16_at(s, at + 3),
            earfcn: u32_at(s, at + 5),
            sfn_subfn: u16_at(s, at + 9),
            pdu_num: s[at + 11],
            sib_mask: u32_at(s, at + 12),
            len: u16_at(s, at + 16),
            packet,
        },
        PacketLayout::V25 => LteRrcOtaPacketView::V25 {
            rrc_rel_maj: s[at],
            rrc_rel_min: s[at + 1],
            nr_rrc_rel_maj: s[at + 2],
            nr_rrc_rel_min: s[at + 3],
            bearer_id: s[at + 4],
            phy_cell_id: u16_at(s, at + 5),
            earfcn: u32_at(s, at + 7),
            sfn_subfn: u16_at(s, at + 11),
            pdu_num: s[at + 13],
            sib_mask: u32_at(s, at + 14),
            len: u16_at(s, at + 18),
            packet,
        },
    }
}

/// What the bytes of `s` from `at` on decode to under `layout`: the packet
/// and the place behind it, or the field that the buffer ends in. The
/// payload's length is the last number of the header, and the payload has to
/// be there in full.
pub open spec fn parse_packet_as(layout: PacketLayout, s: Seq<u8>, at: int) -> Result<
    (LteRrcOtaPacketView, int),
    FrameError,
> {
    let avail = s.len() - at;
    let body = at + layout.header_len();
    let len = u16_at(s, body - 2) as int;
    match header_cut(layout, avail) {
        Some(field) => Err(FrameError::Incomplete(field)),
        None => if avail < layout.header_len() + len {
            Err(FrameError::Incomplete(Field::Packet))
        } else {
            Ok((packet_at(layout, s, at, s.subrange(body, body + len)), body + len))
        },
    }
}

/// What the bytes of `s` from `at` on decode to behind the header version
/// `version`.
pub open spec fn parse_packet(s: Seq<u8>, at: int, version: u8) -> Result<
    (LteRrcOtaPacketView, int),
    FrameError,
> {
    if version <= 4 {
        parse_packet_as(PacketLayout::V0, s, at)
    } else if version <= 7 {
        parse_packet_as(PacketLayout::V5, s, at)
    } else if version <= 24 {
        parse_packet_as(PacketLayout::V8, s, at)
    } else {
        parse_packet_as(PacketLayout::V25, s, at)
    }
}

/// Whether the bytes of `s` from `at` on hold a whole packet in the given
/// layout: the header, and as much payload as the header says.
pub open spec fn holds_packet(layout: PacketLayout, s: Seq<u8>, at: int) -> bool {
    at + layout.header_len() + u16_at(s, at + layout.header_len() - 2) <= s.len()
}

/// Every header version decodes with exactly one layout. Whatever the
/// version, bytes that hold a whole packet in the version's layout decode,
/// and bytes that do not are refused. The packet that comes out is of the
/// variant of that layout and of no other: `V0` for the versions up to 4,
/// `V5` for 5 to 7, `V8` for 8 to 24, `V25` from 25 on. Its frame and
/// subframe number is the one that stands in the header of that layout.
pub proof fn lemma_version_selects_variant(s: Seq<u8>, at: int, version: u8)
    requires
        0 <= at,
    ensures
        parse_packet(s, at, version) is Ok <==> holds_packet(
            PacketLayout::of_version(version),
            s,
            at,
        ),
        parse_packet(s, at, version) matches Ok((packet, next)) ==> {
            &&& packet.layout() == PacketLayout::of_version(version)
            &&& (packet is V0 <==> version <= 4)
            &&& (packet is V5 <==> 5 <= version <= 7)
            &&& (packet is V8 <==> 8 <= version <= 24)
            &&& (packet is V25 <==> 25 <= version)
            &&& packet.sfn_subfn() == u16_at(s, at + packet.layout().sfn_subfn_at())
            &&& next == at + packet.layout().header_len() + packet.len()
        },
{
}

/// A packet that decodes was read with the one layout that covers the header
/// version, and its payload is as long as its header says.
pub proof fn lemma_parsed_packet_layout(s: Seq<u8>, at: int, version: u8)
    requires
        0 <= at,
        parse_packet(s, at, version) is Ok,
    ensures
        parse_packet(s, at, version)->Ok_0.0.layout().covers(version),
        parse_packet(s, at, version)->Ok_0.0.payload().len() == parse_packet(
            s,
            at,
            version,
        )->Ok_0.0.len(),
        parse_packet(s, at, version)->Ok_0.1 <= s.len(),
{
}

/// What lies behind a packet has no bearing on it: a buffer that goes on
/// behind the packet decodes to the same packet.
pub proof fn lemma_packet_ignores_tail(s: Seq<u8>, tail: Seq<u8>, at: int, version: u8)
    requires
        0 <= at,
        parse_packet(s, at, version) is Ok,
    ensures
        parse_packet(s + tail, at, version) == parse_packet(s, at, version),
{
    let t = s + tail;
    let next = parse_packet(s, at, version)->Ok_0.1;
    let layout = parse_packet(s, at, version)->Ok_0.0.layout();
    let body = at + layout.header_len();
    assert(forall|i: int| 0 <= i < s.len() ==> t[i] == s[i]);
    assert(t.subrange(body, next) =~= s.subrange(body, next));
}

impl LteRrcOtaPacket {
    /// Decodes the packet that stands at `at` behind the header version
    /// `ext_header_version`, and says where the bytes behind it begin.
    pub fn read(data: &[u8], at: usize, ext_header_version: u8) -> (r: Result<
        (LteRrcOtaPacket, usize),
        FrameError,
    >)
        ensures
            match r {
                Ok((packet, next)) => parse_packet(data@, at as int, ext_header_version) == Ok::<
                    (LteRrcOtaPacketView, int),
                    FrameError,
                >((packet@, next as int)) && packet@.layout() == PacketLayout::of_version(
                    ext_header_version,
                ),
                Err(e) => parse_packet(data@, at as int, ext_header_version) == Err::<
                    (LteRrcOtaPacketView, int),
                    FrameError,
                >(e),
            },
    {
        let total: usize = data.len();
        assert(data@.len() == total);
        match PacketLayout::for_version(ext_header_version) {
            PacketLayout::V0 => {
                let rrc_rel_maj: u8 = read_u8(data, at, Field::RrcRelMaj)?;
                let rrc_rel_min: u8 = read_u8(data, at + 1, Field::RrcRelMin)?;
                let bearer_id: u8 = read_u8(data, at + 2, Field::BearerId)?;
                let phy_cell_id: u16 = read_u16(data, at + 3, Field::PhyCellId)?;
                let earfcn: u16 = read_u16(data, at + 5, Field::Earfcn)?;
                let sfn_subfn: u16 = read_u16(data, at + 7, Field::SfnSubfn)?;
                let pdu_num: u8 = read_u8(data, at + 9, Field::PduNum)?;
                let len: u16 = read_u16(data, at + 10, Field::Len)?;
                let packet: Vec<u8> = read_bytes(data, at + 12, len as usize, Field::Packet)?;
                Ok(
                    (
                        LteRrcOtaPacket::V0 {
                            rrc_rel_maj,
                            rrc_rel_min,
                            bearer_id,
                            phy_cell_id,
                            earfcn,
                            sfn_subfn,
                            pdu_num,
                            len,
                            packet,
                        },
                        at + 12 + len as usize,
                    ),
                )
            },
            PacketLayout::V5 => {
                let rrc_rel_maj: u8 = read_u8(data, at, Field::RrcRelMaj)?;
                let rrc_rel_min: u8 = read_u8(data, at + 1, Field::RrcRelMin)?;
                let bearer_id: u8 = read_u8(data, at + 2, Field::BearerId)?;
                let phy_cell_id: u16 = read_u16(data, at + 3, Field::PhyCellId)?;
                let earfcn: u16 = read_u16(data, at + 5, Field::Earfcn)?;
                let sfn_subfn: u16 = read_u16(data, at + 7, Field::SfnSubfn)?;
                let pdu_num: u8 = read_u8(data, at + 9, Field::PduNum)?;
                let sib_mask: u32 = read_u32(data, at + 10, Field::SibMask)?;
                let len: u16 = read_u16(data, at + 14, Field::Len)?;
                let packet: Vec<u8> = read_bytes(data, at + 16, len as usize, Field::Packet)?;
                Ok(
                    (
                        LteRrcOtaPacket::V5 {
                            rrc_rel_maj,
                            rrc_rel_min,
                            bearer_id,
                            phy_cell_id,
                            earfcn,
                            sfn_subfn,
                            pdu_num,
                            sib_mask,
                            len,
                            packet,
                        },
                        at + 16 + len as usize,
                    ),
                )
            },
            PacketLayout::V8 => {
                let rrc_rel_maj: u8 = read_u8(data, at, Field::RrcRelMaj)?;
                let rrc_rel_min: u8 = read_u8(data, at + 1, Field::RrcRelMin)?;
                let bearer_id: u8 = read_u8(data, at + 2, Field::BearerId)?;
                let phy_cell_id: u16 = read_u16(data, at + 3, Field::PhyCellId)?;
                let earfcn: u32 = read_u32(data, at + 5, Field::Earfcn)?;
                let sfn_subfn: u16 = read_u16(data, at + 9, Field::SfnSubfn)?;
                let pdu_num: u8 = read_u8(data, at + 11, Field::PduNum)?;
                let sib_mask: u32 = read_u32(data, at + 12, Field::SibMask)?;
                let len: u16 = read_u16(data, at + 16, Field::Len)?;
                let packet: Vec<u8> = read_bytes(data, at + 18, len as usize, Field::Packet)?;
                Ok(
                    (
                        LteRrcOtaPacket::V8 {
                            rrc_rel_maj,
                            rrc_rel_min,
                            bearer_id,
                            phy_cell_id,
                            earfcn,
                            sfn_subfn,
                            pdu_num,
                            sib_mask,
                            len,
                            packet,
                        },
                        at + 18 + len as usize,
                    ),
                )
            },
            PacketLayout::V25 => {
                let rrc_rel_maj: u8 = read_u8(data, at, Field::RrcRelMaj)?;
                let rrc_rel_min: u8 = read_u8(data, at + 1, Field::RrcRelMin)?;
                let nr_rrc_rel_maj: u8 = read_u8(data, at + 2, Field::NrRrcRelMaj)?;
                let nr_rrc_rel_min: u8 = read_u8(data, at + 3, Field::NrRrcRelMin)?;
                let bearer_id: u8 = read_u8(data, at + 4, Field::BearerId)?;
                let phy_cell_id: u16 = read_u16(data, at + 5, Field::PhyCellId)?;
                let earfcn: u32 = read_u32(data, at + 7, Field::Earfcn)?;
                let sfn_subfn: u16 = read_u16(data, at + 11, Field::SfnSubfn)?;
                let pdu_num: u8 = read_u8(data, at + 13, Field::PduNum)?;
                let sib_mask: u32 = read_u32(data, at + 14, Field::SibMask)?;
                let len: u16 = read_u16(data, at + 18, Field::Len)?;
                let packet: Vec<u8> = read_bytes(data, at + 20, len as usize, Field::Packet)?;
                Ok(
                    (
                        LteRrcOtaPacket::V25 {
                            rrc_rel_maj,
                            rrc_rel_min,
                            nr_rrc_rel_maj,
                            nr_rrc_rel_min,
                            bearer_id,
                            phy_cell_id,
                            earfcn,
                            sfn_subfn,
                            pdu_num,
                            sib_mask,
                            len,
                            packet,
                        },
                        at + 20 + len as usize,
                    ),
                )
            },
        }
    }

    /// The combined frame and subframe number, as it stands in the header of
    /// the packet's layout.
    pub fn get_sfn_subfn(&self) -> (r: u16)
        ensures
            r == self@.sfn_subfn(),
    {
        match self {
            LteRrcOtaPacket::V0 { sfn_subfn, .. } => *sfn_subfn,
            LteRrcOtaPacket::V5 { sfn_subfn, .. } => *sfn_subfn,
            LteRrcOtaPacket::V8 { sfn_subfn, .. } => *sfn_subfn,
            LteRrcOtaPacket::V25 { sfn_subfn, .. } => *sfn_subfn,
        }
    }

    /// The system frame number.
    pub fn get_sfn(&self) -> (r: u32)
        ensures
            r == self@.sfn(),
            r * 16 + self@.subfn() == self@.sfn_subfn(),
    {
        let both: u16 = self.get_sfn_subfn();
        assert((both as u32) >> 4 == both / 16) by (bit_vector);
        (both as u32) >> 4
    }

    /// The subframe index.
    pub fn get_subfn(&self) -> (r: u8)
        ensures
            r == self@.subfn(),
            self@.sfn() * 16 + r == self@.sfn_subfn(),
    {
        let both: u16 = self.get_sfn_subfn();
        assert(both & 0xf == both % 16) by (bit_vector);
        (both & 0xf) as u8
    }

    /// The sequence number of the PDU.
    pub fn get_pdu_num(&self) -> (r: u8)
        ensures
            r == self@.pdu_num(),
    {
        match self {
            LteRrcOtaPacket::V0 { pdu_num, .. } => *pdu_num,
            LteRrcOtaPacket::V5 { pdu_num, .. } => *pdu_num,
            LteRrcOtaPacket::V8 { pdu_num, .. } => *pdu_num,
            LteRrcOtaPacket::V25 { pdu_num, .. } => *pdu_num,
        }
    }

    /// The channel number, widened to 32 bits where the layout holds 16.
    pub fn get_earfcn(&self) -> (r: u32)
        ensures
            r == self@.earfcn(),
    {
        match self {
            LteRrcOtaPacket::V0 { earfcn, .. } => *earfcn as u32,
            LteRrcOtaPacket::V5 { earfcn, .. } => *earfcn as u32,
            LteRrcOtaPacket::V8 { earfcn, .. } => *earfcn,
            LteRrcOtaPacket::V25 { earfcn, .. } => *earfcn,
        }
    }

    /// Gives up the packet for its payload.
    pub fn take_payload(self) -> (r: Vec<u8>)
        ensures
            r@ == self@.payload(),
    {
        match self {
            LteRrcOtaPacket::V0 { packet, .. } => packet,
            LteRrcOtaPacket::V5 { packet, .. } => packet,
            LteRrcOtaPacket::V8 { packet, .. } => packet,
            LteRrcOtaPacket::V25 { packet, .. } => packet,
        }
    }
}

} // verus!
