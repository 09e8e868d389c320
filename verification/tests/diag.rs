use rayhunter::container::{DataType, RequestContainer};
use rayhunter::logs::{LogBody, LOG_CODES_FOR_RAW_PACKET_LOGGING};
use rayhunter::lte::LteRrcOtaPacket;
use rayhunter::message::Message;
use rayhunter::request::{build_log_mask_request, LogConfigRequest, Request};
use rayhunter::timestamp::Timestamp;

#[test]
fn test_request_serialization() {
    let req = Request::LogConfig(LogConfigRequest::RetrieveIdRanges);
    assert_eq!(req.to_bytes().unwrap(), vec![115, 0, 0, 0, 1, 0, 0, 0]);

    let req = Request::LogConfig(LogConfigRequest::SetMask {
        log_type: 0,
        log_mask_bitsize: 0,
        log_mask: vec![],
    });
    assert_eq!(req.to_bytes().unwrap(), vec![
        115, 0, 0, 0,
        3, 0, 0, 0,
        0, 0, 0, 0,
        0, 0, 0, 0,
    ]);
}

#[test]
fn test_build_log_mask_request() {
    let log_type = 11;
    let bitsize = 513;
    let req = build_log_mask_request(log_type, bitsize, &LOG_CODES_FOR_RAW_PACKET_LOGGING);
    assert_eq!(req, Request::LogConfig(LogConfigRequest::SetMask {
        log_type: log_type,
        log_mask_bitsize: bitsize,
        log_mask: vec![
            0x0, 0x0, 0x0, 0x0, 0x0, 0x0, 0x0, 0x0, 0x0, 0x0, 0x0, 0x0, 0x0,
            0x0, 0x0, 0x0, 0x0, 0x0, 0x0, 0x0, 0x0, 0x0, 0x0, 0x0, 0x1, 0x0,
            0x0, 0x0, 0xc, 0x30, 0x0, 0x0, 0x0, 0x0, 0x0, 0x0, 0x0, 0x0,
            0x0, 0x0, 0x0, 0x0, 0x0, 0x0, 0x0, 0x0, 0x0, 0x0, 0x0, 0x0, 0x0,
            0x0, 0x0, 0x0, 0x0, 0x0, 0x0, 0x0, 0x0, 0x0, 0x0, 0x0, 0x0, 0x0,
            0x0,
        ],
    }));
}

#[test]
fn test_request_container() {
    let req = RequestContainer {
        data_type: DataType::UserSpace,
        use_mdm: false,
        mdm_field: -1,
        hdlc_encapsulated_request: vec![1, 2, 3, 4],
    };
    assert_eq!(req.to_bytes().unwrap(), vec![
        32, 0, 0, 0,
        1, 2, 3, 4,
    ]);
    let req = RequestContainer {
        data_type: DataType::UserSpace,
        use_mdm: true,
        mdm_field: -1,
        hdlc_encapsulated_request: vec![1, 2, 3, 4],
    };
    assert_eq!(req.to_bytes().unwrap(), vec![
        32, 0, 0, 0,
        255, 255, 255, 255,
        1, 2, 3, 4,
    ]);
}

#[test]
fn test_logs() {
    let data = vec![
        16, 0, 38, 0, 38, 0, 192, 176, 26, 165, 245, 135, 118, 35, 2, 1, 20,
        14, 48, 0, 160, 0, 2, 8, 0, 0, 217, 15, 5, 0, 0, 0, 0, 7, 0, 64, 1,
        238, 173, 213, 77, 208
    ];
    let msg = Message::from_bytes((&data, 0)).unwrap().1;
    assert_eq!(msg, Message::Log {
        pending_msgs: 0,
        outer_length: 38,
        inner_length: 38,
        log_type: 0xb0c0,
        timestamp: Timestamp { ts: 72659535985485082 },
        body: LogBody::LteRrcOtaMessage {
            ext_header_version: 20,
            packet: LteRrcOtaPacket::V8 {
                rrc_rel_maj: 14,
                rrc_rel_min: 48,
                bearer_id: 0,
                phy_cell_id: 160,
                earfcn: 2050,
                sfn_subfn: 4057,
                pdu_num: 5,
                sib_mask: 0,
                len: 7,
                packet: vec![0x40, 0x1, 0xee, 0xad, 0xd5, 0x4d, 0xd0],
            },
        },
    });
}
