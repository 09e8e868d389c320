use rayhunter::container::{DataType, HdlcEncapsulatedMessage, MessagesContainer, RequestContainer};
use rayhunter::error::{Field, FrameError};
use rayhunter::logs::{LogBody, LOG_CODES_FOR_RAW_PACKET_LOGGING};
use rayhunter::lte::{LteRrcOtaPacket, PacketLayout};
use rayhunter::message::{decode_all, Message};
use rayhunter::request::{build_log_mask_request, contains_code, LogConfigRequest, Request};
use rayhunter::response::{LogConfigResponse, ResponsePayload};
use rayhunter::timestamp::Timestamp;

fn lte_log() -> Vec<u8> {
    vec![
        16, 0, 38, 0, 38, 0, 192, 176, 26, 165, 245, 135, 118, 35, 2, 1, 20, 14, 48, 0, 160, 0, 2,
        8, 0, 0, 217, 15, 5, 0, 0, 0, 0, 7, 0, 64, 1, 238, 173, 213, 77, 208,
    ]
}

fn log_with(log_type: u16, inner_length: u16, body: &[u8]) -> Vec<u8> {
    let mut data = vec![16, 0, 0, 0];
    data.extend_from_slice(&inner_length.to_le_bytes());
    data.extend_from_slice(&log_type.to_le_bytes());
    data.extend_from_slice(&[1, 2, 3, 4, 5, 6, 7, 8]);
    data.extend_from_slice(body);
    data
}

fn lte_log_with_version(version: u8, header: &[u8], payload: &[u8]) -> Vec<u8> {
    let mut body = vec![version];
    body.extend_from_slice(header);
    body.extend_from_slice(payload);
    log_with(0xb0c0, 12 + body.len() as u16, &body)
}

fn packet_of(message: Message) -> LteRrcOtaPacket {
    match message {
        Message::Log { body: LogBody::LteRrcOtaMessage { packet, .. }, .. } => packet,
        other => panic!("not an LTE RRC record: {:?}", other),
    }
}

#[test]
fn lte_log_accessors_agree_with_the_header() {
    let packet = packet_of(Message::from_bytes((&lte_log(), 0)).unwrap().1);
    assert_eq!(packet.get_earfcn(), 2050);
    assert_eq!(packet.get_sfn_subfn(), 4057);
    assert_eq!(packet.get_sfn(), 253);
    assert_eq!(packet.get_subfn(), 9);
    assert_eq!(packet.get_pdu_num(), 5);
    assert_eq!(packet.get_sfn() * 16 + packet.get_subfn() as u32, 4057);
    assert_eq!(packet.take_payload(), vec![0x40, 0x1, 0xee, 0xad, 0xd5, 0x4d, 0xd0]);
}

#[test]
fn message_leaves_what_follows_it() {
    let mut data = lte_log();
    data.extend_from_slice(&[9, 8, 7]);
    let (rest, message) = Message::from_bytes((&data, 0)).unwrap();
    assert_eq!(rest, (&[9u8, 8, 7][..], 0));
    assert_eq!(message, Message::from_bytes((&lte_log(), 0)).unwrap().1);
}

#[test]
fn message_may_begin_at_a_later_byte() {
    let mut data = vec![0xaa, 0xbb];
    data.extend_from_slice(&lte_log());
    let (rest, message) = Message::from_bytes((&data, 16)).unwrap();
    assert_eq!(rest.0.len(), 0);
    assert_eq!(message, Message::from_bytes((&lte_log(), 0)).unwrap().1);
}

#[test]
fn offset_inside_a_byte_is_refused() {
    assert_eq!(Message::from_bytes((&lte_log(), 3)), Err(FrameError::Unaligned));
    assert_eq!(Timestamp::from_bytes((&[0u8; 8][..], 1)), Err(FrameError::Unaligned));
    assert_eq!(DataType::from_bytes((&[0u8; 8][..], 7)), Err(FrameError::Unaligned));
}

#[test]
fn every_truncation_of_a_log_names_the_field_it_cuts() {
    let data = lte_log();
    let fields = [
        (0, Field::Discriminant),
        (1, Field::PendingMsgs),
        (2, Field::OuterLength),
        (3, Field::OuterLength),
        (4, Field::InnerLength),
        (6, Field::LogType),
        (8, Field::Timestamp),
        (15, Field::Timestamp),
        (16, Field::ExtHeaderVersion),
        (17, Field::RrcRelMaj),
        (18, Field::RrcRelMin),
        (19, Field::BearerId),
        (20, Field::PhyCellId),
        (22, Field::Earfcn),
        (25, Field::Earfcn),
        (26, Field::SfnSubfn),
        (28, Field::PduNum),
        (29, Field::SibMask),
        (33, Field::Len),
        (34, Field::Len),
        (35, Field::Packet),
        (41, Field::Packet),
    ];
    for (len, field) in fields {
        assert_eq!(
            Message::from_bytes((&data[..len], 0)),
            Err(FrameError::Incomplete(field)),
            "cut to {} bytes",
            len
        );
    }
    assert!(Message::from_bytes((&data[..42], 0)).is_ok());
}

#[test]
fn every_header_version_selects_exactly_one_layout() {
    for version in 0..=255u8 {
        let layout = PacketLayout::for_version(version);
        let expected = if version <= 4 {
            PacketLayout::V0
        } else if version <= 7 {
            PacketLayout::V5
        } else if version <= 24 {
            PacketLayout::V8
        } else {
            PacketLayout::V25
        };
        assert_eq!(layout, expected, "version {}", version);
    }
}

#[test]
fn each_layout_is_read_with_its_own_fields() {
    let payload = [0xde, 0xad];
    // release, release, bearer, cell 0x0102, earfcn 0x0304, sfn 0x1234, pdu 7, length 2
    let v0 = [14, 3, 1, 2, 1, 4, 3, 0x34, 0x12, 7, 2, 0];
    for version in [0u8, 4] {
        let packet = packet_of(
            Message::from_bytes((&lte_log_with_version(version, &v0, &payload), 0)).unwrap().1,
        );
        assert_eq!(packet, LteRrcOtaPacket::V0 {
            rrc_rel_maj: 14,
            rrc_rel_min: 3,
            bearer_id: 1,
            phy_cell_id: 0x0102,
            earfcn: 0x0304,
            sfn_subfn: 0x1234,
            pdu_num: 7,
            len: 2,
            packet: payload.to_vec(),
        });
        assert_eq!(packet.get_earfcn(), 0x0304);
        assert_eq!(packet.get_sfn_subfn(), 0x1234);
        assert_eq!((packet.get_sfn(), packet.get_subfn()), (0x123, 4));
    }
    let v5 = [14, 3, 1, 2, 1, 4, 3, 0x34, 0x12, 7, 9, 0, 0, 0, 2, 0];
    for version in [5u8, 7] {
        let packet = packet_of(
            Message::from_bytes((&lte_log_with_version(version, &v5, &payload), 0)).unwrap().1,
        );
        assert_eq!(packet, LteRrcOtaPacket::V5 {
            rrc_rel_maj: 14,
            rrc_rel_min: 3,
            bearer_id: 1,
            phy_cell_id: 0x0102,
            earfcn: 0x0304,
            sfn_subfn: 0x1234,
            pdu_num: 7,
            sib_mask: 9,
            len: 2,
            packet: payload.to_vec(),
        });
    }
    let v8 = [14, 3, 1, 2, 1, 4, 3, 2, 1, 0x34, 0x12, 7, 9, 0, 0, 0, 2, 0];
    for version in [8u8, 24] {
        let packet = packet_of(
            Message::from_bytes((&lte_log_with_version(version, &v8, &payload), 0)).unwrap().1,
        );
        assert_eq!(packet, LteRrcOtaPacket::V8 {
            rrc_rel_maj: 14,
            rrc_rel_min: 3,
            bearer_id: 1,
            phy_cell_id: 0x0102,
            earfcn: 0x01020304,
            sfn_subfn: 0x1234,
            pdu_num: 7,
            sib_mask: 9,
            len: 2,
            packet: payload.to_vec(),
        });
        assert_eq!(packet.get_earfcn(), 0x01020304);
        assert_eq!(packet.get_sfn_subfn(), 0x1234);
    }
    let v25 = [14, 3, 15, 6, 1, 2, 1, 4, 3, 2, 1, 0x34, 0x12, 7, 9, 0, 0, 0, 2, 0];
    for version in [25u8, 255] {
        let packet = packet_of(
            Message::from_bytes((&lte_log_with_version(version, &v25, &payload), 0)).unwrap().1,
        );
        assert_eq!(packet, LteRrcOtaPacket::V25 {
            rrc_rel_maj: 14,
            rrc_rel_min: 3,
            nr_rrc_rel_maj: 15,
            nr_rrc_rel_min: 6,
            bearer_id: 1,
            phy_cell_id: 0x0102,
            earfcn: 0x01020304,
            sfn_subfn: 0x1234,
            pdu_num: 7,
            sib_mask: 9,
            len: 2,
            packet: payload.to_vec(),
        });
        assert_eq!(packet.get_pdu_num(), 7);
        assert_eq!(packet.get_sfn_subfn(), 0x1234);
    }
}

#[test]
fn every_header_version_decodes_to_the_variant_of_its_layout() {
    let payload = [0xaa, 0xbb, 0xcc];
    let mut headers: Vec<(PacketLayout, Vec<u8>)> = Vec::new();
    headers.push((PacketLayout::V0, vec![1, 2, 3, 4, 0, 5, 0, 0x21, 0x43, 6, 3, 0]));
    headers.push((PacketLayout::V5, vec![1, 2, 3, 4, 0, 5, 0, 0x21, 0x43, 6, 0, 0, 0, 0, 3, 0]));
    headers.push((
        PacketLayout::V8,
        vec![1, 2, 3, 4, 0, 5, 0, 0, 0, 0x21, 0x43, 6, 0, 0, 0, 0, 3, 0],
    ));
    headers.push((
        PacketLayout::V25,
        vec![1, 2, 9, 9, 3, 4, 0, 5, 0, 0, 0, 0x21, 0x43, 6, 0, 0, 0, 0, 3, 0],
    ));
    for version in 0..=255u8 {
        let layout = PacketLayout::for_version(version);
        let mut decoded = 0;
        for (tried, header) in &headers {
            let mut bytes = header.clone();
            bytes.extend_from_slice(&payload);
            if *tried != layout {
                continue;
            }
            let (packet, next) = LteRrcOtaPacket::read(&bytes, 0, version).unwrap();
            assert_eq!(next, bytes.len());
            assert_eq!(packet.get_sfn_subfn(), 0x4321, "version {}", version);
            let variant = match packet {
                LteRrcOtaPacket::V0 { .. } => PacketLayout::V0,
                LteRrcOtaPacket::V5 { .. } => PacketLayout::V5,
                LteRrcOtaPacket::V8 { .. } => PacketLayout::V8,
                LteRrcOtaPacket::V25 { .. } => PacketLayout::V25,
            };
            assert_eq!(variant, layout, "version {}", version);
            assert_eq!(packet.take_payload(), payload.to_vec());
            decoded += 1;
        }
        assert_eq!(decoded, 1, "version {}", version);
    }
}

#[test]
fn frame_and_subframe_recombine_for_every_number() {
    for sfn_subfn in [0u16, 1, 15, 16, 17, 4057, 0x7fff, 0x8000, 0xfff0, 0xffff] {
        let packets = [
            LteRrcOtaPacket::V0 {
                rrc_rel_maj: 0,
                rrc_rel_min: 0,
                bearer_id: 0,
                phy_cell_id: 0,
                earfcn: 0,
                sfn_subfn,
                pdu_num: 0,
                len: 0,
                packet: vec![],
            },
            LteRrcOtaPacket::V5 {
                rrc_rel_maj: 0,
                rrc_rel_min: 0,
                bearer_id: 0,
                phy_cell_id: 0,
                earfcn: 0,
                sfn_subfn,
                pdu_num: 0,
                sib_mask: 0,
                len: 0,
                packet: vec![],
            },
            LteRrcOtaPacket::V8 {
                rrc_rel_maj: 0,
                rrc_rel_min: 0,
                bearer_id: 0,
                phy_cell_id: 0,
                earfcn: 0,
                sfn_subfn,
                pdu_num: 0,
                sib_mask: 0,
                len: 0,
                packet: vec![],
            },
            LteRrcOtaPacket::V25 {
                rrc_rel_maj: 0,
                rrc_rel_min: 0,
                nr_rrc_rel_maj: 0,
                nr_rrc_rel_min: 0,
                bearer_id: 0,
                phy_cell_id: 0,
                earfcn: 0,
                sfn_subfn,
                pdu_num: 0,
                sib_mask: 0,
                len: 0,
                packet: vec![],
            },
        ];
        for packet in packets {
            assert!(packet.get_subfn() < 16);
            assert_eq!(packet.get_sfn() * 16 + packet.get_subfn() as u32, sfn_subfn as u32);
        }
    }
}

#[test]
fn wcdma_gsm_and_gprs_bodies_carry_their_own_length() {
    let wcdma = log_with(0x412f, 12 + 7, &[3, 4, 3, 0, 10, 11, 12]);
    assert_eq!(
        Message::from_bytes((&wcdma, 0)).unwrap().1,
        Message::Log {
            pending_msgs: 0,
            outer_length: 0,
            inner_length: 19,
            log_type: 0x412f,
            timestamp: Timestamp { ts: 0x0807060504030201 },
            body: LogBody::WcdmaSignallingMessage {
                channel_type: 3,
                radio_bearer: 4,
                length: 3,
                msg: vec![10, 11, 12],
            },
        }
    );
    let gsm = log_with(0x512f, 12 + 5, &[1, 2, 2, 20, 21]);
    match Message::from_bytes((&gsm, 0)).unwrap().1 {
        Message::Log { body, .. } => assert_eq!(body, LogBody::GsmRrSignallingMessage {
            channel_type: 1,
            message_type: 2,
            length: 2,
            msg: vec![20, 21],
        }),
        other => panic!("{:?}", other),
    }
    let gprs = log_with(0x5226, 12 + 5, &[1, 2, 2, 20, 21]);
    match Message::from_bytes((&gprs, 0)).unwrap().1 {
        Message::Log { body, .. } => assert_eq!(body, LogBody::GprsMacSignallingMessage {
            channel_type: 1,
            message_type: 2,
            length: 2,
            msg: vec![20, 21],
        }),
        other => panic!("{:?}", other),
    }
    let short = log_with(0x412f, 12 + 7, &[3, 4, 3, 0, 10, 11]);
    assert_eq!(Message::from_bytes((&short, 0)), Err(FrameError::Incomplete(Field::Msg)));
}

#[test]
fn nas_ip_and_nr_bodies_take_their_length_from_the_header() {
    for log_type in [0xb0e2u16, 0xb0e3, 0xb0ec, 0xb0ed] {
        let nas = log_with(log_type, 12 + 6, &[1, 9, 8, 7, 0x55, 0x66, 0x77]);
        let (rest, message) = Message::from_bytes((&nas, 0)).unwrap();
        assert_eq!(rest.0, &[0x77]);
        match message {
            Message::Log { body, .. } => assert_eq!(body, LogBody::Nas4GMessage {
                ext_header_version: 1,
                rrc_rel: 9,
                rrc_version_minor: 8,
                rrc_version_major: 7,
                msg: vec![0x55, 0x66],
            }),
            other => panic!("{:?}", other),
        }
    }
    let ip = log_with(0x11eb, 12 + 10, &[1, 2, 3]);
    let (rest, message) = Message::from_bytes((&ip, 0)).unwrap();
    assert_eq!(rest.0, &[3]);
    match message {
        Message::Log { body, .. } => assert_eq!(body, LogBody::IpTraffic { msg: vec![1, 2] }),
        other => panic!("{:?}", other),
    }
    let nr = log_with(0xb821, 12 + 3, &[1, 2, 3, 4]);
    let (rest, message) = Message::from_bytes((&nr, 0)).unwrap();
    assert_eq!(rest.0, &[4]);
    match message {
        Message::Log { body, .. } => {
            assert_eq!(body, LogBody::NrRrcOtaMessage { msg: vec![1, 2, 3] })
        },
        other => panic!("{:?}", other),
    }
    let umts = log_with(0x713a, 12 + 7, &[1, 2, 0, 0, 0, 0xaa, 0xbb]);
    match Message::from_bytes((&umts, 0)).unwrap().1 {
        Message::Log { body, .. } => assert_eq!(body, LogBody::UmtsNasOtaMessage {
            is_uplink: 1,
            length: 2,
            msg: vec![0xaa, 0xbb],
        }),
        other => panic!("{:?}", other),
    }
}

#[test]
fn lengths_that_do_not_cover_the_fixed_fields_are_refused() {
    let too_short = log_with(0xb821, 11, &[1, 2, 3]);
    assert_eq!(
        Message::from_bytes((&too_short, 0)),
        Err(FrameError::BadLength(Field::InnerLength))
    );
    let nas = log_with(0xb0e2, 12 + 3, &[1, 9, 8, 7, 0x55]);
    assert_eq!(Message::from_bytes((&nas, 0)), Err(FrameError::BadLength(Field::InnerLength)));
    let ip = log_with(0x11eb, 12 + 7, &[1, 2, 3]);
    assert_eq!(Message::from_bytes((&ip, 0)), Err(FrameError::BadLength(Field::InnerLength)));
    let nas_cut = log_with(0xb0e2, 12 + 8, &[1, 9, 8, 7, 0x55]);
    assert_eq!(Message::from_bytes((&nas_cut, 0)), Err(FrameError::Incomplete(Field::Msg)));
}

#[test]
fn unknown_log_type_is_an_error() {
    let unknown = log_with(0x1234, 12, &[]);
    assert_eq!(Message::from_bytes((&unknown, 0)), Err(FrameError::UnknownLogType(0x1234)));
    for code in LOG_CODES_FOR_RAW_PACKET_LOGGING {
        let known = log_with(code as u16, 12 + 64, &[0; 64]);
        assert!(Message::from_bytes((&known, 0)).is_ok(), "log type {:#x}", code);
    }
}

#[test]
fn responses_are_chosen_by_opcode_and_subopcode() {
    let mut ranges = vec![115, 0, 0, 0, 1, 0, 0, 0, 4, 3, 2, 1];
    let mut sizes = [0u32; 16];
    for (i, size) in sizes.iter_mut().enumerate() {
        *size = 1000 * i as u32 + 7;
        ranges.extend_from_slice(&size.to_le_bytes());
    }
    assert_eq!(
        Message::from_bytes((&ranges, 0)).unwrap().1,
        Message::Response {
            opcode: 115,
            subopcode: 1,
            status: 0x01020304,
            payload: ResponsePayload::LogConfig(LogConfigResponse::RetrieveIdRanges {
                log_mask_sizes: sizes,
            }),
        }
    );
    assert_eq!(
        Message::from_bytes((&ranges[..75], 0)),
        Err(FrameError::Incomplete(Field::LogMaskSizes))
    );
    let ack = [115, 0, 0, 0, 3, 0, 0, 0, 0, 0, 0, 0, 0xee];
    let (rest, message) = Message::from_bytes((&ack[..], 0)).unwrap();
    assert_eq!(rest.0, &[0xee]);
    assert_eq!(message, Message::Response {
        opcode: 115,
        subopcode: 3,
        status: 0,
        payload: ResponsePayload::LogConfig(LogConfigResponse::SetMask),
    });
    let other_family = [116, 0, 0, 0, 3, 0, 0, 0, 0, 0, 0, 0];
    assert_eq!(Message::from_bytes((&other_family[..], 0)), Err(FrameError::UnknownOpcode(116)));
    let other_kind = [115, 0, 0, 0, 2, 0, 0, 0, 0, 0, 0, 0];
    assert_eq!(Message::from_bytes((&other_kind[..], 0)), Err(FrameError::UnknownSubopcode(2)));
    assert_eq!(Message::from_bytes((&ack[..3], 0)), Err(FrameError::Incomplete(Field::Opcode)));
    assert_eq!(Message::from_bytes((&ack[..7], 0)), Err(FrameError::Incomplete(Field::Subopcode)));
    assert_eq!(Message::from_bytes((&ack[..11], 0)), Err(FrameError::Incomplete(Field::Status)));
}

#[test]
fn opcode_of_a_response_includes_the_first_byte() {
    let response = [115, 1, 0, 0, 3, 0, 0, 0, 0, 0, 0, 0];
    assert_eq!(
        Message::from_bytes((&response[..], 0)),
        Err(FrameError::UnknownOpcode(115 + 256))
    );
}

#[test]
fn container_holds_as_many_blobs_as_it_counts() {
    let bytes = [
        32, 0, 0, 0, 2, 0, 0, 0, 3, 0, 0, 0, 1, 2, 3, 0, 0, 0, 0, 0xff,
    ];
    let (rest, container) = MessagesContainer::from_bytes((&bytes[..], 0)).unwrap();
    assert_eq!(rest, (&[0xffu8][..], 0));
    assert_eq!(container.data_type, DataType::UserSpace);
    assert_eq!(container.num_messages, 2);
    assert_eq!(container.messages.len(), 2);
    assert_eq!(container.messages[0].len, 3);
    assert_eq!(container.messages[0].data, vec![1, 2, 3]);
    assert_eq!(container.messages[1].len, 0);
    assert_eq!(container.messages[1].data, Vec::<u8>::new());
}

#[test]
fn container_with_unknown_tag_keeps_the_tag() {
    let bytes = [64, 1, 0, 0, 0, 0, 0, 0];
    let container = MessagesContainer::from_bytes((&bytes[..], 0)).unwrap().1;
    assert_eq!(container.data_type, DataType::Other(320));
    assert!(container.messages.is_empty());
    assert_eq!(DataType::Other(320).to_bytes().unwrap(), vec![64, 1, 0, 0]);
    assert_eq!(DataType::UserSpace.to_bytes().unwrap(), vec![32, 0, 0, 0]);
    assert_eq!(DataType::from_bytes((&bytes[..], 0)).unwrap().1, DataType::Other(320));
    assert_eq!(DataType::from_bytes((&[32u8, 0, 0, 0][..], 0)).unwrap().1, DataType::UserSpace);
}

#[test]
fn container_that_is_cut_short_is_an_error() {
    let bytes = [32, 0, 0, 0, 2, 0, 0, 0, 3, 0, 0, 0, 1, 2, 3, 1, 0, 0, 0];
    let cuts = [
        (0, Field::DataType),
        (3, Field::DataType),
        (4, Field::NumMessages),
        (7, Field::NumMessages),
        (8, Field::Len),
        (11, Field::Len),
        (12, Field::Data),
        (14, Field::Data),
        (15, Field::Len),
        (18, Field::Len),
        (19, Field::Data),
    ];
    for (len, field) in cuts {
        assert_eq!(
            MessagesContainer::from_bytes((&bytes[..len], 0)).err(),
            Some(FrameError::Incomplete(field)),
            "cut to {} bytes",
            len
        );
    }
    assert!(MessagesContainer::from_bytes((&[0u8; 8][..], 4)).is_err());
    let huge = [32, 0, 0, 0, 0xff, 0xff, 0xff, 0xff];
    assert_eq!(
        MessagesContainer::from_bytes((&huge[..], 0)).err(),
        Some(FrameError::Incomplete(Field::Len))
    );
}

#[test]
fn blob_is_read_behind_its_length() {
    let bytes = [2, 0, 0, 0, 7, 8, 9];
    let (rest, blob) = HdlcEncapsulatedMessage::from_bytes((&bytes[..], 0)).unwrap();
    assert_eq!(rest.0, &[9]);
    assert_eq!((blob.len, blob.data), (2, vec![7, 8]));
    assert_eq!(
        HdlcEncapsulatedMessage::from_bytes((&bytes[..5], 0)).err(),
        Some(FrameError::Incomplete(Field::Data))
    );
}

#[test]
fn malformed_frame_does_not_disturb_its_neighbours() {
    let good = lte_log();
    let bad = good[..20].to_vec();
    let unknown = log_with(0x4242, 12, &[]);
    let decoded = decode_all(&vec![good.clone(), bad, good.clone(), unknown, good.clone()]);
    let expected = Message::from_bytes((&good, 0)).unwrap().1;
    assert_eq!(decoded.len(), 5);
    assert_eq!(decoded[0], Ok(expected.clone()));
    assert_eq!(decoded[1], Err(FrameError::Incomplete(Field::PhyCellId)));
    assert_eq!(decoded[2], Ok(expected.clone()));
    assert_eq!(decoded[3], Err(FrameError::UnknownLogType(0x4242)));
    assert_eq!(decoded[4], Ok(expected));
    assert!(decode_all(&vec![]).is_empty());
}

#[test]
fn malformed_container_does_not_disturb_the_next() {
    let good = [32, 0, 0, 0, 1, 0, 0, 0, 1, 0, 0, 0, 5];
    let bad = [32, 0, 0, 0, 1, 0, 0, 0, 9, 0, 0, 0, 5];
    assert!(MessagesContainer::from_bytes((&good[..], 0)).is_ok());
    assert!(MessagesContainer::from_bytes((&bad[..], 0)).is_err());
    let again = MessagesContainer::from_bytes((&good[..], 0)).unwrap().1;
    assert_eq!(again.messages[0].data, vec![5]);
}

#[test]
fn set_mask_request_is_written_with_its_mask() {
    let request = Request::LogConfig(LogConfigRequest::SetMask {
        log_type: 11,
        log_mask_bitsize: 0x0201,
        log_mask: vec![0xaa, 0xbb, 0xcc],
    });
    assert_eq!(
        request.to_bytes().unwrap(),
        vec![115, 0, 0, 0, 3, 0, 0, 0, 11, 0, 0, 0, 1, 2, 0, 0, 0xaa, 0xbb, 0xcc]
    );
    assert_eq!(
        LogConfigRequest::RetrieveIdRanges.to_bytes().unwrap(),
        vec![1, 0, 0, 0]
    );
    let mut out = vec![9];
    LogConfigRequest::RetrieveIdRanges.write(&mut out);
    assert_eq!(out, vec![9, 1, 0, 0, 0]);
}

#[test]
fn log_mask_has_a_byte_for_every_eight_bits_begun() {
    for (bitsize, bytes) in [(0u32, 0usize), (1, 1), (7, 1), (8, 1), (9, 2), (16, 2), (17, 3), (513, 65)] {
        match build_log_mask_request(3, bitsize, &[]) {
            Request::LogConfig(LogConfigRequest::SetMask { log_type, log_mask_bitsize, log_mask }) => {
                assert_eq!(log_type, 3);
                assert_eq!(log_mask_bitsize, bitsize);
                assert_eq!(log_mask, vec![0u8; bytes]);
            },
            other => panic!("{:?}", other),
        }
    }
}

#[test]
fn log_mask_sets_the_bits_of_the_accepted_codes_lowest_first() {
    let codes = [0x5000, 0x5007, 0x5008, 0x500a, 0x6001, 0x500b];
    let request = build_log_mask_request(5, 11, &codes);
    assert_eq!(request, Request::LogConfig(LogConfigRequest::SetMask {
        log_type: 5,
        log_mask_bitsize: 11,
        log_mask: vec![0b1000_0001, 0b0000_0101],
    }));
    assert!(contains_code(&codes, 0x6001));
    assert!(!contains_code(&codes, 0x6002));
    assert!(!contains_code(&[], 0));
}

#[test]
fn mdm_container_carries_its_field_in_front_of_the_request() {
    let container = RequestContainer::new(DataType::UserSpace, true, vec![0x7e]);
    assert_eq!(container.mdm_field, -1);
    assert_eq!(container.to_bytes().unwrap(), vec![32, 0, 0, 0, 255, 255, 255, 255, 0x7e]);
    let plain = RequestContainer::new(DataType::Other(7), false, vec![0x7e]);
    assert_eq!(plain.to_bytes().unwrap(), vec![7, 0, 0, 0, 0x7e]);
    let other_field = RequestContainer {
        data_type: DataType::UserSpace,
        use_mdm: true,
        mdm_field: 0x01020304,
        hdlc_encapsulated_request: vec![],
    };
    assert_eq!(other_field.to_bytes().unwrap(), vec![32, 0, 0, 0, 4, 3, 2, 1]);
    let negative = RequestContainer {
        data_type: DataType::UserSpace,
        use_mdm: true,
        mdm_field: -2,
        hdlc_encapsulated_request: vec![],
    };
    assert_eq!(negative.to_bytes().unwrap(), vec![32, 0, 0, 0, 254, 255, 255, 255]);
}
