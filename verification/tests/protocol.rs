use tars::codec::{Buffer, Reader};
use tars::consts::{
    TARS_MESSAGE_TYPE_DYED, TARS_MESSAGE_TYPE_TRACE, TARS_NORMAL, TARS_ONEWAY,
    TARS_SERVER_QUEUE_TIMEOUT, TARS_VERSION,
};
use tars::error::{CodecError, TarsError};
use tars::protocol::logf::encode_log_buffer;
use tars::protocol::queryf::decode_endpoint_list;
use tars::protocol::statf::{bucket, encode_stat_map, IntervalCounts};
use tars::protocol::{
    EndpointF, LogInfo, MessageType, PacketType, Protocol, RequestPacket, ResponsePacket,
    ReturnCode, StatInfo, StatMicMsgBody, StatMicMsgHead, TarsProtocol, TarsVersion,
    TransportProtocol,
};
use tars::PackageStatus;

#[test]
fn test_tars_version() {
    assert_eq!(TarsVersion::Tars.as_i16(), 1);
    assert_eq!(TarsVersion::from_i16(1), Some(TarsVersion::Tars));
    assert_eq!(TarsVersion::from_i16(99), None);
}

#[test]
fn test_packet_type() {
    assert_eq!(PacketType::Normal.as_i8(), 0);
    assert_eq!(PacketType::Oneway.as_i8(), 1);
    assert_eq!(PacketType::from_i8(0), Some(PacketType::Normal));
}

#[test]
fn test_message_type() {
    let mut mt = MessageType::null();
    assert!(!mt.has_flag(MessageType::dyed()));

    mt.add_flag(MessageType::dyed());
    assert!(mt.has_flag(MessageType::dyed()));
    assert!(!mt.has_flag(MessageType::trace()));

    mt.add_flag(MessageType::trace());
    assert!(mt.has_flag(MessageType::dyed()));
    assert!(mt.has_flag(MessageType::trace()));

    mt.remove_flag(MessageType::dyed());
    assert!(!mt.has_flag(MessageType::dyed()));
    assert!(mt.has_flag(MessageType::trace()));
}

#[test]
fn test_return_code() {
    assert!(ReturnCode::is_success(0));
    assert!(!ReturnCode::is_success(-1));
    assert_eq!(ReturnCode::Success.as_i32(), 0);
}

#[test]
fn test_transport_protocol() {
    assert_eq!(TransportProtocol::Tcp.as_str(), "tcp");
    assert_eq!(TransportProtocol::from_i32(1), Some(TransportProtocol::Tcp));
}

#[test]
fn enum_numbers() {
    assert_eq!(TarsVersion::Tup.as_i16(), 2);
    assert_eq!(TarsVersion::Json.as_i16(), 3);
    assert_eq!(TarsVersion::from_i16(3), Some(TarsVersion::Json));
    assert_eq!(TarsVersion::from_i16(0), None);
    assert_eq!(PacketType::from_i8(1), Some(PacketType::Oneway));
    assert_eq!(PacketType::from_i8(2), None);
    assert_eq!(ReturnCode::from_i32(-1), Some(ReturnCode::DecodeError));
    assert_eq!(ReturnCode::from_i32(-2), Some(ReturnCode::QueueTimeout));
    assert_eq!(ReturnCode::from_i32(-3), Some(ReturnCode::InvokeTimeout));
    assert_eq!(ReturnCode::from_i32(-99), Some(ReturnCode::UnknownError));
    assert_eq!(ReturnCode::from_i32(1), None);
    assert_eq!(ReturnCode::UnknownError.as_i32(), -99);
    assert_eq!(TransportProtocol::Udp.as_i32(), 0);
    assert_eq!(TransportProtocol::Ssl.as_i32(), 2);
    assert_eq!(TransportProtocol::Ssl.as_str(), "ssl");
    assert_eq!(TransportProtocol::Udp.as_str(), "udp");
    assert_eq!(TransportProtocol::from_i32(3), None);
}

#[test]
fn test_request_packet_encode_decode() {
    let mut req = RequestPacket::new();
    req.i_version = TARS_VERSION;
    req.c_packet_type = TARS_NORMAL;
    req.i_request_id = 12345;
    req.s_servant_name = "Test.HelloServer.HelloObj".to_string();
    req.s_func_name = "sayHello".to_string();
    req.s_buffer = vec![1, 2, 3, 4];
    req.i_timeout = 3000;
    req.context.insert("key".to_string(), "value".to_string());

    let encoded = req.encode().unwrap();

    // Decode
    let decoded = RequestPacket::decode(&encoded).unwrap();

    assert_eq!(decoded.i_version, req.i_version);
    assert_eq!(decoded.c_packet_type, req.c_packet_type);
    assert_eq!(decoded.i_request_id, req.i_request_id);
    assert_eq!(decoded.s_servant_name, req.s_servant_name);
    assert_eq!(decoded.s_func_name, req.s_func_name);
    assert_eq!(decoded.s_buffer, req.s_buffer);
    assert_eq!(decoded.i_timeout, req.i_timeout);
    assert_eq!(decoded.context.get("key"), Some(&"value".to_string()));
}

#[test]
fn test_response_packet_encode_decode() {
    let mut rsp = ResponsePacket::new();
    rsp.i_version = TARS_VERSION;
    rsp.i_request_id = 12345;
    rsp.i_ret = 0;
    rsp.s_buffer = vec![5, 6, 7, 8];
    rsp.s_result_desc = "success".to_string();

    let encoded = rsp.encode().unwrap();

    // Decode
    let decoded = ResponsePacket::decode(&encoded).unwrap();

    assert_eq!(decoded.i_version, rsp.i_version);
    assert_eq!(decoded.i_request_id, rsp.i_request_id);
    assert_eq!(decoded.i_ret, rsp.i_ret);
    assert_eq!(decoded.s_buffer, rsp.s_buffer);
    assert_eq!(decoded.s_result_desc, rsp.s_result_desc);
}

#[test]
fn test_request_packet_oneway() {
    let mut req = RequestPacket::new();
    assert!(!req.is_oneway());

    req.c_packet_type = TARS_ONEWAY;
    assert!(req.is_oneway());
}

#[test]
fn test_request_packet_message_type() {
    let mut req = RequestPacket::new();
    assert!(!req.has_message_type(TARS_MESSAGE_TYPE_DYED));

    req.add_message_type(TARS_MESSAGE_TYPE_DYED);
    assert!(req.has_message_type(TARS_MESSAGE_TYPE_DYED));
    assert!(!req.has_message_type(TARS_MESSAGE_TYPE_TRACE));

    req.add_message_type(TARS_MESSAGE_TYPE_TRACE);
    assert!(req.has_message_type(TARS_MESSAGE_TYPE_DYED));
    assert!(req.has_message_type(TARS_MESSAGE_TYPE_TRACE));
}

#[test]
fn test_response_packet_success() {
    let rsp = ResponsePacket::success(123, vec![1, 2, 3]);
    assert!(rsp.is_success());
    assert_eq!(rsp.i_request_id, 123);
    assert_eq!(rsp.s_buffer, vec![1, 2, 3]);
}

#[test]
fn test_response_packet_error() {
    let rsp = ResponsePacket::error(123, -1, "error message");
    assert!(!rsp.is_success());
    assert_eq!(rsp.i_ret, -1);
    assert_eq!(rsp.s_result_desc, "error message");
}

#[test]
fn test_response_packet_timeout() {
    let rsp = ResponsePacket::timeout(123);
    assert!(!rsp.is_success());
    assert_eq!(rsp.i_ret, TARS_SERVER_QUEUE_TIMEOUT);
}

#[test]
fn request_envelope_round_trip() {
    let mut req = RequestPacket::new();
    req.i_version = 1;
    req.c_packet_type = 0;
    req.i_request_id = 12345;
    req.s_servant_name = "A.B.C".to_string();
    req.s_func_name = "f".to_string();
    req.s_buffer = vec![1, 2, 3];
    req.i_timeout = 3000;
    req.context.insert("k".to_string(), "v".to_string());
    req.status.insert("s".to_string(), "t".to_string());
    req.i_message_type = 12;

    let encoded = req.encode().unwrap();
    let prefix = u32::from_be_bytes([encoded[0], encoded[1], encoded[2], encoded[3]]) as usize;
    assert_eq!(prefix, encoded.len());

    let decoded = RequestPacket::decode(&encoded).unwrap();
    assert_eq!(decoded.i_version, 1);
    assert_eq!(decoded.c_packet_type, 0);
    assert_eq!(decoded.i_message_type, 12);
    assert_eq!(decoded.i_request_id, 12345);
    assert_eq!(decoded.s_servant_name, "A.B.C");
    assert_eq!(decoded.s_func_name, "f");
    assert_eq!(decoded.s_buffer, vec![1, 2, 3]);
    assert_eq!(decoded.i_timeout, 3000);
    assert_eq!(decoded.context.len(), 1);
    assert_eq!(decoded.context.get("k"), Some(&"v".to_string()));
    assert_eq!(decoded.status.len(), 1);
    assert_eq!(decoded.status.get("s"), Some(&"t".to_string()));

    // the body alone decodes to the same packet
    let decoded = RequestPacket::decode(&encoded[4..]).unwrap();
    assert_eq!(decoded.i_request_id, 12345);
    assert_eq!(decoded.s_servant_name, "A.B.C");
}

#[test]
fn request_envelope_exact_bytes() {
    let mut req = RequestPacket::new();
    req.i_request_id = 7;
    req.s_servant_name = "S".to_string();
    req.s_func_name = "f".to_string();
    req.i_timeout = 0;
    let encoded = req.encode().unwrap();
    assert_eq!(
        encoded,
        vec![
            0, 0, 0, 24, // length
            0x10, 0x01, // version 1
            0x2C, // packet type 0
            0x3C, // message type 0
            0x40, 0x07, // request id 7
            0x56, 0x01, b'S', // servant
            0x66, 0x01, b'f', // func
            0x7D, 0x00, 0x0C, // empty payload
            0x8C, // timeout 0
            0x98, 0x0C, // empty context
            0xA8, 0x0C, // empty status
        ]
    );
}

#[test]
fn response_success_round_trip() {
    let rsp = ResponsePacket::success(7, vec![9, 9]);
    let encoded = rsp.encode().unwrap();
    let decoded = ResponsePacket::decode(&encoded).unwrap();
    assert!(decoded.is_success());
    assert_eq!(decoded.i_ret, 0);
    assert_eq!(decoded.i_request_id, 7);
    assert_eq!(decoded.s_buffer, vec![9, 9]);
    assert_eq!(decoded.c_packet_type, 0);
}

#[test]
fn response_constructors() {
    let rsp = ResponsePacket::timeout(5);
    assert_eq!(rsp.i_ret, -2);
    assert_eq!(rsp.s_result_desc, "server invoke timeout");
    assert_eq!(rsp.i_request_id, 5);
    let rsp = ResponsePacket::error(6, -99, "boom");
    let decoded = ResponsePacket::decode(&rsp.encode().unwrap()).unwrap();
    assert_eq!(decoded.i_ret, -99);
    assert_eq!(decoded.s_result_desc, "boom");
    assert_eq!(decoded.i_request_id, 6);
    let rsp = ResponsePacket::new();
    assert_eq!(rsp.i_version, 1);
    assert_eq!(rsp.i_ret, 0);
}

#[test]
fn missing_fields_decode_as_zero() {
    let decoded = RequestPacket::decode(&[]).unwrap();
    assert_eq!(decoded.i_version, 0);
    assert_eq!(decoded.i_timeout, 0);
    assert_eq!(decoded.s_servant_name, "");
    assert!(decoded.context.is_empty());
    let decoded = ResponsePacket::decode(&[0x30, 0x05]).unwrap();
    assert_eq!(decoded.i_request_id, 5);
    assert_eq!(decoded.i_version, 0);
}

#[test]
fn decode_reports_codec_errors() {
    assert_eq!(
        RequestPacket::decode(&[0x16, 0x00]).err(),
        Some(TarsError::Codec(CodecError::TypeMismatch(tars::TarsType::String1)))
    );
    assert_eq!(
        ResponsePacket::decode(&[0x11, 0x00]).err(),
        Some(TarsError::Codec(CodecError::UnexpectedEof))
    );
}

#[test]
fn protocol_packs_and_unpacks() {
    let protocol = TarsProtocol::new();
    let mut req = RequestPacket::new();
    req.i_request_id = 3;
    let packed = protocol.request_pack(&req).unwrap();
    assert_eq!(protocol.parse_package(&packed), (packed.len(), PackageStatus::Full));
    assert_eq!(protocol.parse_package(&packed[..3]), (0, PackageStatus::Less));
    let rsp = ResponsePacket::success(3, vec![1]);
    let unpacked = protocol.response_unpack(&rsp.encode().unwrap()).unwrap();
    assert_eq!(unpacked.i_request_id, 3);
}

#[test]
fn test_endpoint_encode_decode() {
    let ep = EndpointF {
        host: "127.0.0.1".to_string(),
        port: 10000,
        timeout: 3000,
        istcp: 1,
        grid: 0,
        groupworkid: 0,
        grouprealid: 0,
        set_id: "".to_string(),
        qos: 0,
        bak_flag: 0,
        weight: 100,
        weight_type: 0,
        auth_type: 0,
    };

    let mut buf = Buffer::new();
    ep.encode(&mut buf).unwrap();

    let bytes = buf.to_bytes();
    let mut reader = Reader::new(&bytes);
    let decoded = EndpointF::decode(&mut reader).unwrap();

    assert_eq!(ep.host, decoded.host);
    assert_eq!(ep.port, decoded.port);
    assert_eq!(ep.timeout, decoded.timeout);
}

#[test]
fn endpoint_list_round_trip() {
    let mut buf = Buffer::new();
    buf.write_int32(0, 0).unwrap();
    buf.write_list(2, 2).unwrap();
    for port in [1000, 2000] {
        let mut ep = EndpointF::empty();
        ep.host = "h".to_string();
        ep.port = port;
        ep.istcp = 1;
        ep.weight = 7;
        ep.set_id = "a.b.c".to_string();
        buf.write_struct_begin(0).unwrap();
        ep.encode(&mut buf).unwrap();
        buf.write_struct_end().unwrap();
    }
    let bytes = buf.to_bytes();
    let mut reader = Reader::new(&bytes);
    assert_eq!(reader.read_int32(0, true).unwrap(), 0);
    let list = decode_endpoint_list(&mut reader, 2, true).unwrap();
    assert_eq!(list.len(), 2);
    assert_eq!(list[0].port, 1000);
    assert_eq!(list[1].port, 2000);
    assert_eq!(list[1].weight, 7);
    assert_eq!(list[1].set_id, "a.b.c");
    let missing = decode_endpoint_list(&mut reader, 3, false).unwrap();
    assert!(missing.is_empty());
    assert_eq!(
        decode_endpoint_list(&mut reader, 3, true).err(),
        Some(TarsError::Codec(CodecError::RequiredTagNotFound(3)))
    );
}

#[test]
fn endpoint_from_struct() {
    let mut ep = EndpointF::empty();
    ep.host = "10.1.1.1".to_string();
    ep.port = 80;
    let mut buf = Buffer::new();
    buf.write_struct_begin(4).unwrap();
    ep.encode(&mut buf).unwrap();
    buf.write_struct_end().unwrap();
    let bytes = buf.to_bytes();
    let mut reader = Reader::new(&bytes);
    let back = EndpointF::decode_from_struct(&mut reader, 4, true).unwrap();
    assert_eq!(back.host, "10.1.1.1");
    assert_eq!(back.port, 80);
    assert_eq!(reader.position(), bytes.len());
    let mut reader = Reader::new(&bytes);
    let none = EndpointF::decode_from_struct(&mut reader, 2, false).unwrap();
    assert_eq!(none.host, "");
    assert_eq!(none.port, 0);
}

#[test]
fn endpoint_optional_field_that_cannot_be_read_counts_as_zero() {
    let mut buf = Buffer::new();
    buf.write_string("h", 0).unwrap();
    buf.write_int32(1, 1).unwrap();
    buf.write_int32(2, 2).unwrap();
    buf.write_int32(1, 3).unwrap();
    buf.write_int32(0, 4).unwrap();
    buf.write_string("not a number", 5).unwrap();
    let bytes = buf.to_bytes();
    let mut reader = Reader::new(&bytes);
    let ep = EndpointF::decode(&mut reader).unwrap();
    assert_eq!(ep.groupworkid, 0);
    assert_eq!(ep.host, "h");
    assert_eq!(ep.timeout, 2);
}

#[test]
fn test_log_info_encode_decode() {
    let info = LogInfo::new("TestApp", "TestServer", "test_log");

    let mut buf = Buffer::new();
    info.encode(&mut buf).unwrap();

    let bytes = buf.to_bytes();
    let mut reader = Reader::new(&bytes);
    let decoded = LogInfo::decode(&mut reader).unwrap();

    assert_eq!(info.appname, decoded.appname);
    assert_eq!(info.servername, decoded.servername);
    assert_eq!(info.filename, decoded.filename);
}

#[test]
fn log_info_defaults_and_log_buffer() {
    let info = LogInfo::new("a", "s", "f");
    assert_eq!(info.format, "%Y%m%d");
    assert!(info.has_suffix);
    assert!(info.has_app_prefix);
    assert!(!info.has_square_bracket);
    assert_eq!(info.concat_str, "_");
    assert_eq!(info.separator, "|");
    let mut buf = Buffer::new();
    info.encode(&mut buf).unwrap();
    let bytes = buf.to_bytes();
    let mut reader = Reader::new(&bytes);
    let decoded = LogInfo::decode(&mut reader).unwrap();
    assert!(decoded.has_suffix);
    assert_eq!(decoded.concat_str, "_");
    assert_eq!(decoded.separator, "|");

    let mut buf = Buffer::new();
    encode_log_buffer(&mut buf, &["a".to_string(), "bc".to_string()], 1).unwrap();
    assert_eq!(buf.to_bytes(), vec![0x19, 0x00, 0x02, 0x06, 1, b'a', 0x06, 2, b'b', b'c']);
}

#[test]
fn test_stat_body_response_time() {
    let mut body = StatMicMsgBody::new();
    body.count = 1;
    body.add_response_time(35); // Should go into 50ms bucket

    assert_eq!(body.total_rsp_time, 35);
    assert_eq!(body.max_rsp_time, 35);
    assert_eq!(body.min_rsp_time, 35);
    assert_eq!(body.interval_count.get(50), Some(1));
}

#[test]
fn statf_test_stat_body_merge() {
    let mut body1 = StatMicMsgBody::new();
    body1.count = 5;
    body1.timeout_count = 1;
    body1.total_rsp_time = 100;
    body1.max_rsp_time = 50;
    body1.min_rsp_time = 10;

    let mut body2 = StatMicMsgBody::new();
    body2.count = 3;
    body2.exec_count = 1;
    body2.total_rsp_time = 60;
    body2.max_rsp_time = 80;
    body2.min_rsp_time = 5;

    body1.merge(&body2);

    assert_eq!(body1.count, 8);
    assert_eq!(body1.timeout_count, 1);
    assert_eq!(body1.exec_count, 1);
    assert_eq!(body1.total_rsp_time, 160);
    assert_eq!(body1.max_rsp_time, 80);
    assert_eq!(body1.min_rsp_time, 5);
}

#[test]
fn mod_test_stat_body_merge() {
    let mut body1 = StatMicMsgBody::new();
    body1.count = 5;
    body1.total_rsp_time = 100;
    body1.max_rsp_time = 30;
    body1.min_rsp_time = 10;

    let mut body2 = StatMicMsgBody::new();
    body2.count = 3;
    body2.total_rsp_time = 60;
    body2.max_rsp_time = 40;
    body2.min_rsp_time = 5;

    body1.merge(&body2);

    assert_eq!(body1.count, 8);
    assert_eq!(body1.total_rsp_time, 160);
    assert_eq!(body1.max_rsp_time, 40);
    assert_eq!(body1.min_rsp_time, 5);
}

#[test]
fn stat_buckets() {
    assert_eq!(bucket(-5), Some(5));
    assert_eq!(bucket(4), Some(5));
    assert_eq!(bucket(5), Some(10));
    assert_eq!(bucket(49), Some(50));
    assert_eq!(bucket(2999), Some(3000));
    assert_eq!(bucket(3000), None);
    let mut counts = IntervalCounts::new();
    counts.add(50, 2);
    counts.add(10, 1);
    counts.add(50, 3);
    assert_eq!(counts.len(), 2);
    assert_eq!(counts.get(50), Some(5));
    assert_eq!(counts.get(10), Some(1));
    assert_eq!(counts.get(5), None);
    assert_eq!(counts.entry_at(0), (50, 5));

    let mut a = StatMicMsgBody::new();
    a.add_response_time(7);
    a.add_response_time(8);
    let mut b = StatMicMsgBody::new();
    b.add_response_time(9);
    b.add_response_time(4000);
    a.merge(&b);
    assert_eq!(a.interval_count.get(10), Some(3));
    assert_eq!(a.total_rsp_time, 4024);
    assert_eq!(a.max_rsp_time, 4000);
    assert_eq!(a.min_rsp_time, 7);
}

#[test]
fn stat_head_and_body_round_trip() {
    let head = StatMicMsgHead {
        master_name: "m".to_string(),
        slave_name: "s".to_string(),
        interface_name: "i".to_string(),
        master_ip: "1.1.1.1".to_string(),
        slave_ip: "2.2.2.2".to_string(),
        slave_port: 99,
        return_value: -3,
        slave_set_name: "n".to_string(),
        slave_set_area: "a".to_string(),
        slave_set_id: "g".to_string(),
        tars_version: "1.0.0".to_string(),
    };
    let mut buf = Buffer::new();
    head.encode(&mut buf).unwrap();
    let bytes = buf.to_bytes();
    let mut reader = Reader::new(&bytes);
    let back = StatMicMsgHead::decode(&mut reader).unwrap();
    assert!(back.same_as(&head));

    let mut body = StatMicMsgBody::new();
    body.count = 3;
    body.add_response_time(120);
    let mut buf = Buffer::new();
    body.encode(&mut buf).unwrap();
    let bytes = buf.to_bytes();
    let mut reader = Reader::new(&bytes);
    let back = StatMicMsgBody::decode(&mut reader).unwrap();
    assert_eq!(back.count, 3);
    assert_eq!(back.total_rsp_time, 120);
    assert_eq!(back.max_rsp_time, 120);
    assert_eq!(back.min_rsp_time, 120);
    // the buckets are passed over when reading
    assert!(back.interval_count.is_empty());

    let info = StatInfo::new(head, body);
    let mut buf = Buffer::new();
    encode_stat_map(&mut buf, &[info], 0).unwrap();
    let bytes = buf.to_bytes();
    assert_eq!(&bytes[0..3], &[0x08, 0x00, 0x01]);
    assert_eq!(bytes[3], 0x0A);
    assert_eq!(*bytes.last().unwrap(), 0x0B);
}
