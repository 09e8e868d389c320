//! The body of a log record. The record's log type chooses one of eight
//! layouts; a log type that has none is an error. Where a layout keeps no
//! length of its own, the payload's length is what the record's inner length
//! leaves behind the layout's fixed fields.

use vstd::prelude::*;
use crate::error::{FrameError, Field};
use crate::lte::{parse_packet, LteRrcOtaPacket, LteRrcOtaPacketView};
use crate::wire::{read_bytes, read_u16, read_u32, read_u8, u16_at, u32_at};

verus! {

pub const LOG_WCDMA_SIGNALLING: u16 = 0x412f;

pub const LOG_GSM_RR_SIGNALLING: u16 = 0x512f;

pub const LOG_GPRS_MAC_SIGNALLING: u16 = 0x5226;

pub const LOG_LTE_RRC_OTA: u16 = 0xb0c0;

pub const LOG_LTE_NAS_ESM_IN: u16 = 0xb0e2;

pub const LOG_LTE_NAS_ESM_OUT: u16 = 0xb0e3;

pub const LOG_LTE_NAS_EMM_IN: u16 = 0xb0ec;

pub const LOG_LTE_NAS_EMM_OUT: u16 = 0xb0ed;

pub const LOG_IP_TRAFFIC: u16 = 0x11eb;

pub const LOG_UMTS_NAS_OTA: u16 = 0x713a;

pub const LOG_NR_RRC_OTA: u16 = 0xb821;

/// The log codes whose records carry raw signalling or traffic: the log
/// types for which a body layout is defined.
pub const LOG_CODES_FOR_RAW_PACKET_LOGGING: [u32; 11] = [
    0x5226,
    0x512f,
    0x412f,
    0xb0c0,
    0xb821,
    0x713a,
    0xb0e2,
    0xb0e3,
    0xb0ec,
    0xb0ed,
    0x11eb,
];

/// The body of a log record.
#[allow(inconsistent_fields)]
#[derive(Debug, Clone, PartialEq)]
pub enum LogBody {
    WcdmaSignallingMessage { channel_type: u8, radio_bearer: u8, length: u16, msg: Vec<u8> },
    GsmRrSignallingMessage { channel_type: u8, message_type: u8, length: u8, msg: Vec<u8> },
    GprsMacSignallingMessage { channel_type: u8, message_type: u8, length: u8, msg: Vec<u8> },
    LteRrcOtaMessage { ext_header_version: u8, packet: LteRrcOtaPacket },
    /// A plain ESM or EMM NAS message, incoming or outgoing.
    Nas4GMessage {
        ext_header_version: u8,
        rrc_rel: u8,
        rrc_version_minor: u8,
        rrc_version_major: u8,
        msg: Vec<u8>,
    },
    IpTraffic { msg: Vec<u8> },
    UmtsNasOtaMessage { is_uplink: u8, length: u32, msg: Vec<u8> },
    NrRrcOtaMessage { msg: Vec<u8> },
}

/// What a `LogBody` holds, with each payload as a sequence.
#[allow(inconsistent_fields)]
pub enum LogBodyView {
    WcdmaSignallingMessage { channel_type: u8, radio_bearer: u8, length: u16, msg: Seq<u8> },
    GsmRrSignallingMessage { channel_type: u8, message_type: u8, length: u8, msg: Seq<u8> },
    GprsMacSignallingMessage { channel_type: u8, message_type: u8, length: u8, msg: Seq<u8> },
    LteRrcOtaMessage { ext_header_version: u8, packet: LteRrcOtaPacketView },
    Nas4GMessage {
        ext_header_version: u8,
        rrc_rel: u8,
        rrc_version_minor: u8,
        rrc_version_major: u8,
        msg: Seq<u8>,
    },
    IpTraffic { msg: Seq<u8> },
    UmtsNasOtaMessage { is_uplink: u8, length: u32, msg: Seq<u8> },
    NrRrcOtaMessage { msg: Seq<u8> },
}

impl View for LogBody {
    type V = LogBodyView;

    open spec fn view(&self) -> LogBodyView {
        match *self {
            LogBody::WcdmaSignallingMessage { channel_type, radio_bearer, length, msg } =>
                LogBodyView::WcdmaSignallingMessage {
                    channel_type,
                    radio_bearer,
                    length,
                    msg: msg@,
                },
            LogBody::GsmRrSignallingMessage { channel_type, message_type, length, msg } =>
                LogBodyView::GsmRrSignallingMessage {
                    channel_type,
                    message_type,
                    length,
                    msg: msg@,
                },
            LogBody::GprsMacSignallingMessage { channel_type, message_type, length, msg } =>
                LogBodyView::GprsMacSignallingMessage {
                    channel_type,
                    message_type,
                    length,
                    msg: msg@,
                },
            LogBody::LteRrcOtaMessage { ext_header_version, packet } =>
                LogBodyView::LteRrcOtaMessage { ext_header_version, packet: packet@ },
            LogBody::Nas4GMessage {
                ext_header_version,
                rrc_rel,
                rrc_version_minor,
                rrc_version_major,
                msg,
            } => LogBodyView::Nas4GMessage {
                ext_header_version,
                rrc_rel,
                rrc_version_minor,
                rrc_version_major,
                msg: msg@,
            },
            LogBody::IpTraffic { msg } => LogBodyView::IpTraffic { msg: msg@ },
            LogBody::UmtsNasOtaMessage { is_uplink, length, msg } =>
                LogBodyView::UmtsNasOtaMessage { is_uplink, length, msg: msg@ },
            LogBody::NrRrcOtaMessage { msg } => LogBodyView::NrRrcOtaMessage { msg: msg@ },
        }
    }
}

/// Whether a body layout is defined for `log_type`.
pub open spec fn known_log_type(log_type: u16) -> bool {
    ||| log_type == LOG_WCDMA_SIGNALLING
    ||| log_type == LOG_GSM_RR_SIGNALLING
    ||| log_type == LOG_GPRS_MAC_SIGNALLING
    ||| log_type == LOG_LTE_RRC_OTA
    ||| is_nas_4g(log_type)
    ||| log_type == LOG_IP_TRAFFIC
    ||| log_type == LOG_UMTS_NAS_OTA
    ||| log_type == LOG_NR_RRC_OTA
}

/// The four log types of plain 4G NAS messages, which share one layout.
pub open spec fn is_nas_4g(log_type: u16) -> bool {
    ||| log_type == LOG_LTE_NAS_ESM_IN
    ||| log_type == LOG_LTE_NAS_ESM_OUT
    ||| log_type == LOG_LTE_NAS_EMM_IN
    ||| log_type == LOG_LTE_NAS_EMM_OUT
}

/// The log types with a body layout are the log codes for raw packet logging,
/// no more and no fewer.
pub proof fn lemma_known_log_types_are_the_raw_codes(log_type: u16)
    ensures
        known_log_type(log_type) <==> LOG_CODES_FOR_RAW_PACKET_LOGGING@.contains(log_type as u32),
{
    let codes = LOG_CODES_FOR_RAW_PACKET_LOGGING@;
    assert(codes[0] == 0x5226 && codes[1] == 0x512f && codes[2] == 0x412f && codes[3] == 0xb0c0
        && codes[4] == 0xb821 && codes[5] == 0x713a && codes[6] == 0xb0e2 && codes[7] == 0xb0e3
        && codes[8] == 0xb0ec && codes[9] == 0xb0ed && codes[10] == 0x11eb);
}

/// A WCDMA signalling record at `at`: channel type, radio bearer, a 16-bit
/// length, and that many bytes.
pub open spec fn parse_wcdma(s: Seq<u8>, at: int) -> Result<(LogBodyView, int), FrameError> {
    let avail = s.len() - at;
    let length = u16_at(s, at + 2);
    if avail < 1 {
        Err(FrameError::Incomplete(Field::ChannelType))
    } else if avail < 2 {
        Err(FrameError::Incomplete(Field::RadioBearer))
    } else if avail < 4 {
        Err(FrameError::Incomplete(Field::Length))
    } else if avail < 4 + length {
        Err(FrameError::Incomplete(Field::Msg))
    } else {
        Ok(
            (
                LogBodyView::WcdmaSignallingMessage {
                    channel_type: s[at],
                    radio_bearer: s[at + 1],
                    length,
                    msg: s.subrange(at + 4, at + 4 + length),
                },
                at + 4 + length,
            ),
        )
    }
}

/// A GSM RR or GPRS MAC signalling record at `at`: channel type, message
/// type, an 8-bit length, and that many bytes.
pub open spec fn parse_gsm_like(s: Seq<u8>, at: int, gprs: bool) -> Result<
    (LogBodyView, int),
    FrameError,
> {
    let avail = s.len() - at;
    let length = s[at + 2];
    let msg = s.subrange(at + 3, at + 3 + length);
    if avail < 1 {
        Err(FrameError::Incomplete(Field::ChannelType))
    } else if avail < 2 {
        Err(FrameError::Incomplete(Field::MessageType))
    } else if avail < 3 {
        Err(FrameError::Incomplete(Field::Length))
    } else if avail < 3 + length {
        Err(FrameError::Incomplete(Field::Msg))
    } else if gprs {
        Ok(
            (
                LogBodyView::GprsMacSignallingMessage {
                    channel_type: s[at],
                    message_type: s[at + 1],
                    length,
                    msg,
                },
                at + 3 + length,
            ),
        )
    } else {
        Ok(
            (
                LogBodyView::GsmRrSignallingMessage {
                    channel_type: s[at],
                    message_type: s[at + 1],
                    length,
                    msg,
                },
                at + 3 + length,
            ),
        )
    }
}

/// An LTE RRC record at `at`: the header version, then the packet in the
/// layout that the version calls for.
pub open spec fn parse_lte_rrc(s: Seq<u8>, at: int) -> Result<(LogBodyView, int), FrameError> {
    if s.len() - at < 1 {
        Err(FrameError::Incomplete(Field::ExtHeaderVersion))
    } else {
        match parse_packet(s, at + 1, s[at]) {
            Ok((packet, next)) => Ok(
                (LogBodyView::LteRrcOtaMessage { ext_header_version: s[at], packet }, next),
            ),
            Err(e) => Err(e),
        }
    }
}

/// A plain 4G NAS record at `at`: four bytes of versions, then all but four
/// of the `hdr_len` bytes that the record's header leaves to the body.
pub open spec fn parse_nas_4g(s: Seq<u8>, at: int, hdr_len: u16) -> Result<
    (LogBodyView, int),
    FrameError,
> {
    let avail = s.len() - at;
    if avail < 1 {
        Err(FrameError::Incomplete(Field::ExtHeaderVersion))
    } else if avail < 2 {
        Err(FrameError::Incomplete(Field::RrcRel))
    } else if avail < 3 {
        Err(FrameError::Incomplete(Field::RrcVersionMinor))
    } else if avail < 4 {
        Err(FrameError::Incomplete(Field::RrcVersionMajor))
    } else if hdr_len < 4 {
        Err(FrameError::BadLength(Field::InnerLength))
    } else if avail < hdr_len {
        Err(FrameError::Incomplete(Field::Msg))
    } else {
        Ok(
            (
                LogBodyView::Nas4GMessage {
                    ext_header_version: s[at],
                    rrc_rel: s[at + 1],
                    rrc_version_minor: s[at + 2],
                    rrc_version_major: s[at + 3],
                    msg: s.subrange(at + 4, at + hdr_len),
                },
                at + hdr_len,
            ),
        )
    }
}

/// A record of IP traffic at `at`: all but eight of the `hdr_len` bytes that
/// the record's header leaves to the body.
pub open spec fn parse_ip_traffic(s: Seq<u8>, at: int, hdr_len: u16) -> Result<
    (LogBodyView, int),
    FrameError,
> {
    if hdr_len < 8 {
        Err(FrameError::BadLength(Field::InnerLength))
    } else if s.len() - at < hdr_len - 8 {
        Err(FrameError::Incomplete(Field::Msg))
    } else {
        Ok((LogBodyView::IpTraffic { msg: s.subrange(at, at + hdr_len - 8) }, at + hdr_len - 8))
    }
}

/// A UMTS NAS record at `at`: the direction, a 32-bit length, and that many
/// bytes.
pub open spec fn parse_umts_nas(s: Seq<u8>, at: int) -> Result<(LogBodyView, int), FrameError> {
    let avail = s.len() - at;
    let length = u32_at(s, at + 1);
    if avail < 1 {
        Err(FrameError::Incomplete(Field::IsUplink))
    } else if avail < 5 {
        Err(FrameError::Incomplete(Field::Length))
    } else if avail < 5 + length {
        Err(FrameError::Incomplete(Field::Msg))
    } else {
        Ok(
            (
                LogBodyView::UmtsNasOtaMessage {
                    is_uplink: s[at],
                    length,
                    msg: s.subrange(at + 1 + 4, at + 5 + length),
                },
                at + 5 + length,
            ),
        )
    }
}

/// An NR RRC record at `at`: all of the `hdr_len` bytes that the record's
/// header leaves to the body.
pub open spec fn parse_nr_rrc(s: Seq<u8>, at: int, hdr_len: u16) -> Result<
    (LogBodyView, int),
    FrameError,
> {
    if s.len() - at < hdr_len {
        Err(FrameError::Incomplete(Field::Msg))
    } else {
        Ok((LogBodyView::NrRrcOtaMessage { msg: s.subrange(at, at + hdr_len) }, at + hdr_len))
    }
}

/// What the bytes of `s` from `at` on decode to as the body of a record with
/// log type `log_type` whose header leaves `hdr_len` bytes to the body: the
/// body and the place behind it, or what is wrong.
pub open spec fn parse_log_body(s: Seq<u8>, at: int, log_type: u16, hdr_len: u16) -> Result<
    (LogBodyView, int),
    FrameError,
> {
    if log_type == LOG_WCDMA_SIGNALLING {
        parse_wcdma(s, at)
    } else if log_type == LOG_GSM_RR_SIGNALLING {
        parse_gsm_like(s, at, false)
    } else if log_type == LOG_GPRS_MAC_SIGNALLING {
        parse_gsm_like(s, at, true)
    } else if log_type == LOG_LTE_RRC_OTA {
        parse_lte_rrc(s, at)
    } else if is_nas_4g(log_type) {
        parse_nas_4g(s, at, hdr_len)
    } else if log_type == LOG_IP_TRAFFIC {
        parse_ip_traffic(s, at, hdr_len)
    } else if log_type == LOG_UMTS_NAS_OTA {
        parse_umts_nas(s, at)
    } else if log_type == LOG_NR_RRC_OTA {
        parse_nr_rrc(s, at, hdr_len)
    } else {
        Err(FrameError::UnknownLogType(log_type))
    }
}

/// A body is refused for its log type exactly when no layout is defined for
/// it, and a body that decodes ends inside the buffer.
pub proof fn lemma_log_body_dispatch(s: Seq<u8>, at: int, log_type: u16, hdr_len: u16)
    requires
        0 <= at,
    ensures
        !known_log_type(log_type) <==> parse_log_body(s, at, log_type, hdr_len) == Err::<
            (LogBodyView, int),
            FrameError,
        >(FrameError::UnknownLogType(log_type)),
        parse_log_body(s, at, log_type, hdr_len) matches Ok((_, next)) ==> at <= next <= s.len(),
{
}

/// The packet of an LTE RRC record is of the variant that the record's
/// header version calls for, whatever the version.
pub proof fn lemma_lte_body_variant(s: Seq<u8>, at: int, hdr_len: u16)
    requires
        0 <= at,
    ensures
        parse_log_body(s, at, LOG_LTE_RRC_OTA, hdr_len) matches Ok((body, _)) ==> {
            &&& body matches LogBodyView::LteRrcOtaMessage { ext_header_version, packet }
            &&& ext_header_version == s[at]
            &&& packet.layout() == crate::lte::PacketLayout::of_version(ext_header_version)
            &&& packet.layout().covers(ext_header_version)
        },
{
    crate::lte::lemma_version_selects_variant(s, at + 1, s[at]);
}

/// What lies behind a body has no bearing on it: a buffer that goes on
/// behind the body decodes to the same body.
pub proof fn lemma_log_body_ignores_tail(
    s: Seq<u8>,
    tail: Seq<u8>,
    at: int,
    log_type: u16,
    hdr_len: u16,
)
    requires
        0 <= at,
        parse_log_body(s, at, log_type, hdr_len) is Ok,
    ensures
        parse_log_body(s + tail, at, log_type, hdr_len) == parse_log_body(s, at, log_type, hdr_len),
{
    let t = s + tail;
    let next = parse_log_body(s, at, log_type, hdr_len)->Ok_0.1;
    assert(forall|i: int| 0 <= i < s.len() ==> t[i] == s[i]);
    assert forall|i: int| at <= i <= next implies #[trigger] t.subrange(i, next) == s.subrange(
        i,
        next,
    ) by {
        assert(t.subrange(i, next) =~= s.subrange(i, next));
    }
    if log_type == LOG_LTE_RRC_OTA {
        crate::lte::lemma_packet_ignores_tail(s, tail, at + 1, s[at]);
    }
}

impl LogBody {
    /// Decodes the body that stands at `at` in a record with log type
    /// `log_type` whose header leaves `hdr_len` bytes to the body, and says
    /// where the bytes behind it begin.
    pub fn read(data: &[u8], at: usize, log_type: u16, hdr_len: u16) -> (r: Result<
        (LogBody, usize),
        FrameError,
    >)
        ensures
            match r {
                Ok((body, next)) => parse_log_body(data@, at as int, log_type, hdr_len) == Ok::<
                    (LogBodyView, int),
                    FrameError,
                >((body@, next as int)),
                Err(e) => parse_log_body(data@, at as int, log_type, hdr_len) == Err::<
                    (LogBodyView, int),
                    FrameError,
                >(e),
            },
    {
        let total: usize = data.len();
        assert(data@.len() == total);
        if log_type == LOG_WCDMA_SIGNALLING {
            let channel_type: u8 = read_u8(data, at, Field::ChannelType)?;
            let radio_bearer: u8 = read_u8(data, at + 1, Field::RadioBearer)?;
            let length: u16 = read_u16(data, at + 2, Field::Length)?;
            let msg: Vec<u8> = read_bytes(data, at + 4, length as usize, Field::Msg)?;
            Ok(
                (
                    LogBody::WcdmaSignallingMessage { channel_type, radio_bearer, length, msg },
                    at + 4 + length as usize,
                ),
            )
        } else if log_type == LOG_GSM_RR_SIGNALLING || log_type == LOG_GPRS_MAC_SIGNALLING {
            let channel_type: u8 = read_u8(data, at, Field::ChannelType)?;
            let message_type: u8 = read_u8(data, at + 1, Field::MessageType)?;
            let length: u8 = read_u8(data, at + 2, Field::Length)?;
            let msg: Vec<u8> = read_bytes(data, at + 3, length as usize, Field::Msg)?;
            let next: usize = at + 3 + length as usize;
            if log_type == LOG_GSM_RR_SIGNALLING {
                Ok(
                    (
                        LogBody::GsmRrSignallingMessage { channel_type, message_type, length, msg },
                        next,
                    ),
                )
            } else {
                Ok(
                    (
                        LogBody::GprsMacSignallingMessage {
                            channel_type,
                            message_type,
                            length,
                            msg,
                        },
                        next,
                    ),
                )
            }
        } else if log_type == LOG_LTE_RRC_OTA {
            let ext_header_version: u8 = read_u8(data, at, Field::ExtHeaderVersion)?;
            let (packet, next) = LteRrcOtaPacket::read(data, at + 1, ext_header_version)?;
            Ok((LogBody::LteRrcOtaMessage { ext_header_version, packet }, next))
        } else if log_type == LOG_LTE_NAS_ESM_IN || log_type == LOG_LTE_NAS_ESM_OUT || log_type
            == LOG_LTE_NAS_EMM_IN || log_type == LOG_LTE_NAS_EMM_OUT {
            let ext_header_version: u8 = read_u8(data, at, Field::ExtHeaderVersion)?;
            let rrc_rel: u8 = read_u8(data, at + 1, Field::RrcRel)?;
            let rrc_version_minor: u8 = read_u8(data, at + 2, Field::RrcVersionMinor)?;
            let rrc_version_major: u8 = read_u8(data, at + 3, Field::RrcVersionMajor)?;
            if hdr_len < 4 {
                return Err(FrameError::BadLength(Field::InnerLength));
            }
            let count: usize = (hdr_len - 4) as usize;
            let msg: Vec<u8> = read_bytes(data, at + 4, count, Field::Msg)?;
            Ok(
                (
                    LogBody::Nas4GMessage {
                        ext_header_version,
                        rrc_rel,
                        rrc_version_minor,
                        rrc_version_major,
                        msg,
                    },
                    at + 4 + count,
                ),
            )
        } else if log_type == LOG_IP_TRAFFIC {
            if hdr_len < 8 {
                return Err(FrameError::BadLength(Field::InnerLength));
            }
            let count: usize = (hdr_len - 8) as usize;
            let msg: Vec<u8> = read_bytes(data, at, count, Field::Msg)?;
            Ok((LogBody::IpTraffic { msg }, at + count))
        } else if log_type == LOG_UMTS_NAS_OTA {
            let is_uplink: u8 = read_u8(data, at, Field::IsUplink)?;
            let length: u32 = read_u32(data, at + 1, Field::Length)?;
            let msg: Vec<u8> = read_bytes(data, at + 5, length as usize, Field::Msg)?;
            Ok((LogBody::UmtsNasOtaMessage { is_uplink, length, msg }, at + 5 + length as usize))
        } else if log_type == LOG_NR_RRC_OTA {
            let msg: Vec<u8> = read_bytes(data, at, hdr_len as usize, Field::Msg)?;
            Ok((LogBody::NrRrcOtaMessage { msg }, at + hdr_len as usize))
        } else {
            Err(FrameError::UnknownLogType(log_type))
        }
    }
}

} // verus!
