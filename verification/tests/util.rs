use std::sync::atomic::AtomicI32;
use std::time::Duration;

use tars::logger::timestamp_at;
use tars::protocol::StatMicMsgBody;
use tars::stat::{StatConfig, StatReporter};
use tars::util::clock::{milliseconds_of, now_millis, now_secs, seconds_of};
use tars::util::parse::{parse_decimal, split_on, split_tokens, trim};
use tars::util::request_id::next_request_id;
use tars::util::text::{concat3, eq_ignore_case};
use tars::util::{
    bytes_to_int8_slice, gen_request_id, int8_slice_to_bytes, parse_endpoint_string,
    parse_obj_name, AdapterConfig, ClientConfig, Context, ServerConfig,
};

#[test]
fn mod_test_gen_request_id() {
    let counter = AtomicI32::new(0);
    let id1 = gen_request_id(&counter);
    let id2 = gen_request_id(&counter);
    assert_ne!(id1, id2);
    assert_ne!(id1, 0);
    assert_ne!(id2, 0);
}

#[test]
fn test_gen_request_id() {
    let counter = AtomicI32::new(0);
    let id1 = gen_request_id(&counter);
    let id2 = gen_request_id(&counter);
    assert_ne!(id1, id2);
    assert_ne!(id1, 0);
    assert_ne!(id2, 0);
}

#[test]
fn request_ids_wrap_and_skip_zero() {
    assert_eq!(next_request_id(0), 1);
    assert_eq!(next_request_id(1), 2);
    assert_eq!(next_request_id(i32::MAX - 2), i32::MAX - 1);
    assert_eq!(next_request_id(i32::MAX - 1), 1);
    assert_eq!(next_request_id(i32::MAX), 1);
    assert_eq!(next_request_id(-1), 1);
    let counter = AtomicI32::new(i32::MAX - 3);
    assert_eq!(gen_request_id(&counter), i32::MAX - 2);
    assert_eq!(gen_request_id(&counter), i32::MAX - 1);
    assert_eq!(gen_request_id(&counter), 1);
    assert_eq!(gen_request_id(&counter), 2);
}

#[test]
fn a_million_request_ids_are_distinct_and_not_zero() {
    let counter = AtomicI32::new(i32::MAX - 500_000);
    let mut seen = std::collections::HashSet::new();
    for _ in 0..1_000_000 {
        let id = gen_request_id(&counter);
        assert_ne!(id, 0);
        assert!(seen.insert(id));
    }
}

#[test]
fn test_bytes_conversion() {
    let bytes: Vec<u8> = vec![1, 2, 128, 255];
    let int8s = bytes_to_int8_slice(&bytes);
    let back = int8_slice_to_bytes(&int8s);
    assert_eq!(bytes, back);
    assert_eq!(int8s, vec![1, 2, -128, -1]);
}

#[test]
fn test_parse_endpoint_string() {
    let ep = parse_endpoint_string("tcp -h 127.0.0.1 -p 10000 -t 5000").unwrap();
    assert_eq!(ep.host, "127.0.0.1");
    assert_eq!(ep.port, 10000);
    assert_eq!(ep.timeout, 5000);
    assert_eq!(ep.istcp, 1); // TCP

    let ep = parse_endpoint_string("udp -h 192.168.1.1 -p 8080").unwrap();
    assert_eq!(ep.host, "192.168.1.1");
    assert_eq!(ep.port, 8080);
    assert_eq!(ep.istcp, 0); // UDP
}

#[test]
fn endpoint_string_edge_cases() {
    assert!(parse_endpoint_string("").is_none());
    assert!(parse_endpoint_string("   ").is_none());
    assert!(parse_endpoint_string("http -h a -p 1").is_none());
    assert!(parse_endpoint_string("tcp -p 1").is_none());
    assert!(parse_endpoint_string("tcp -h a").is_none());
    assert!(parse_endpoint_string("tcp -h a -p 0").is_none());
    assert!(parse_endpoint_string("tcp -h a -p 65536").is_none());
    assert!(parse_endpoint_string("tcp -h a -p x").is_none());
    let ep = parse_endpoint_string("  SSL\t-h  a  junk -p +65535 -t nope -x").unwrap();
    assert_eq!(ep.istcp, 2);
    assert_eq!(ep.host, "a");
    assert_eq!(ep.port, 65535);
    assert_eq!(ep.timeout, 3000);
    assert_eq!(ep.weight, 0);
    let ep = parse_endpoint_string("tcp -h a -h b -p 1 -p 2 -t 18446744073709551615").unwrap();
    assert_eq!(ep.host, "b");
    assert_eq!(ep.port, 2);
    assert_eq!(ep.timeout, u64::MAX);
    // a flag that stands last takes nothing
    let ep = parse_endpoint_string("tcp -h a -p 1 -t").unwrap();
    assert_eq!(ep.timeout, 3000);
}

#[test]
fn test_parse_obj_name() {
    let (name, eps) = parse_obj_name("Test.HelloServer.HelloObj");
    assert_eq!(name, "Test.HelloServer.HelloObj");
    assert!(eps.is_empty());

    let (name, eps) = parse_obj_name("Test.HelloServer.HelloObj@tcp -h 127.0.0.1 -p 10000");
    assert_eq!(name, "Test.HelloServer.HelloObj");
    assert_eq!(eps.len(), 1);
    assert_eq!(eps[0].host, "127.0.0.1");
    assert_eq!(eps[0].port, 10000);

    let (name, eps) = parse_obj_name(
        "Test.HelloServer.HelloObj@tcp -h 127.0.0.1 -p 10000:tcp -h 127.0.0.1 -p 10001",
    );
    assert_eq!(name, "Test.HelloServer.HelloObj");
    assert_eq!(eps.len(), 2);
    assert_eq!(eps[1].port, 10001);
    let (name, eps) = parse_obj_name("A@bad: udp -h h -p 5 :");
    assert_eq!(name, "A");
    assert_eq!(eps.len(), 1);
    assert!(eps[0].is_udp());
}

#[test]
fn text_helpers() {
    assert_eq!(
        split_tokens(b"  a\tbc \n d  "),
        vec![b"a".to_vec(), b"bc".to_vec(), b"d".to_vec()]
    );
    assert_eq!(split_tokens(b""), Vec::<Vec<u8>>::new());
    assert_eq!(split_on(b"a::b", b':'), vec![b"a".to_vec(), b"".to_vec(), b"b".to_vec()]);
    assert_eq!(split_on(b"", b':'), vec![b"".to_vec()]);
    assert_eq!(trim(b" \t x y \r\n"), b"x y".to_vec());
    assert_eq!(trim(b"   "), b"".to_vec());
    assert_eq!(parse_decimal(b"0012", 100), Some(12));
    assert_eq!(parse_decimal(b"+7", 100), Some(7));
    assert_eq!(parse_decimal(b"101", 100), None);
    assert_eq!(parse_decimal(b"-1", 100), None);
    assert_eq!(parse_decimal(b"", 100), None);
    assert_eq!(parse_decimal(b"+", 100), None);
    assert_eq!(parse_decimal(b"1a", 100), None);
    assert_eq!(parse_decimal(b"18446744073709551615", u64::MAX), Some(u64::MAX));
    assert_eq!(parse_decimal(b"18446744073709551616", u64::MAX), None);
    assert!(eq_ignore_case(b"TcP", b"tcp"));
    assert!(!eq_ignore_case(b"tcp", b"tcpx"));
    assert!(!eq_ignore_case(b"t@p", b"t`p"));
    assert_eq!(concat3("ab", "cd", "e"), "abcde");
}

#[test]
fn config_test_server_config_default() {
    let config = ServerConfig::default();
    assert_eq!(config.accept_timeout, 10000);
    assert_eq!(config.max_invoke, 200000);
}

#[test]
fn config_test_client_config_default() {
    let config = ClientConfig::default();
    assert_eq!(config.async_invoke_timeout, 3000);
    assert_eq!(config.dial_timeout, 3000);
}

#[test]
fn test_timeout_duration() {
    let config = ClientConfig::default();
    assert_eq!(config.async_timeout_duration(), Duration::from_millis(3000));
}

#[test]
fn config_durations() {
    let config = ServerConfig::default();
    assert_eq!(config.accept_timeout_duration(), Duration::from_millis(10000));
    assert_eq!(config.read_timeout_duration(), Duration::from_millis(60000));
    assert_eq!(config.write_timeout_duration(), Duration::from_millis(60000));
    assert_eq!(config.handle_timeout_duration(), Duration::from_millis(60000));
    assert_eq!(config.idle_timeout_duration(), Duration::from_millis(600000));
    assert_eq!(config.log_level, "INFO");
    assert_eq!(config.tcp_read_buffer, 128 * 1024);
    let config = ClientConfig::default();
    assert_eq!(config.dial_timeout_duration(), Duration::from_millis(3000));
    assert_eq!(config.idle_timeout_duration(), Duration::from_millis(600000));
    assert_eq!(config.read_timeout_duration(), Duration::from_millis(3000));
    assert_eq!(config.write_timeout_duration(), Duration::from_millis(3000));
    assert_eq!(config.queue_len, 10000);
    assert_eq!(config.obj_queue_max, 10000);
    assert_eq!(AdapterConfig::default().protocol, "tars");
}

#[test]
fn test_context_timeout() {
    let ctx = Context::with_timeout(Duration::from_secs(1));
    assert!(!ctx.is_expired());
    assert!(ctx.remaining().unwrap() <= 1000);
}

#[test]
fn test_context_values() {
    let mut ctx = Context::new();
    ctx.set("key", "value");
    assert_eq!(ctx.get("key"), Some("value".to_string()));
    assert_eq!(ctx.get("nonexistent"), None);

    ctx.remove("key");
    assert_eq!(ctx.get("key"), None);
}

#[test]
fn test_context_dyeing() {
    let mut ctx = Context::new();
    assert!(!ctx.is_dyed());

    ctx.set_dyeing_key("dye-123");
    assert!(ctx.is_dyed());
    assert_eq!(ctx.dyeing_key(), Some("dye-123"));
}

#[test]
fn context_at_given_times() {
    let mut ctx = Context::new_at(1000);
    assert_eq!(ctx.remaining_at(1000), None);
    assert!(!ctx.is_expired_at(i64::MAX));
    ctx.set_timeout_at(1000, 500);
    assert_eq!(ctx.remaining_at(1200), Some(300));
    assert_eq!(ctx.remaining_at(1500), Some(0));
    assert_eq!(ctx.remaining_at(9999), Some(0));
    assert!(!ctx.is_expired_at(1499));
    assert!(ctx.is_expired_at(1500));
    assert_eq!(ctx.elapsed_at(1250), 250);
    assert_eq!(ctx.elapsed_at(10), 0);
    ctx.set_timeout_at(i64::MAX - 1, 10);
    assert_eq!(ctx.remaining_at(i64::MAX - 1), Some(1));
    assert_eq!(ctx.recv_pkg_ts(), 1000);
    ctx.set_recv_pkg_ts(5);
    assert_eq!(ctx.recv_pkg_ts(), 5);
    ctx.set_packet_type(1);
    assert_eq!(ctx.packet_type(), 1);
    ctx.set_server_ip("s");
    ctx.set_server_port(1);
    ctx.set_client_ip("c");
    ctx.set_client_port(2);
    assert_eq!(ctx.server_ip(), Some("s"));
    assert_eq!(ctx.server_port(), Some(1));
    assert_eq!(ctx.client_ip(), Some("c"));
    assert_eq!(ctx.client_port(), Some(2));
    assert!(!ctx.is_traced());
    ctx.set_trace_key("t");
    assert_eq!(ctx.trace_key(), Some("t"));
    ctx.set("a", "1");
    ctx.set("a", "2");
    assert_eq!(ctx.values().len(), 1);
    assert_eq!(ctx.remove("a"), Some("2".to_string()));
    let due = Context::with_deadline(77);
    assert_eq!(due.remaining_at(70), Some(7));
}

#[test]
fn clocks_agree_and_stand_in_this_century() {
    let secs = now_secs();
    let millis = now_millis();
    assert!(secs > 1_500_000_000);
    assert!(secs < 4_102_444_800);
    assert!((millis / 1000 - secs).abs() <= 2);
    let ctx = Context::new();
    assert!((ctx.recv_pkg_ts() / 1000 - secs).abs() <= 2);
}

#[test]
fn spans_since_1970_become_whole_numbers() {
    assert_eq!(seconds_of(None), 0);
    assert_eq!(milliseconds_of(None), 0);
    assert_eq!(seconds_of(Some(Duration::from_millis(1999))), 1);
    assert_eq!(milliseconds_of(Some(Duration::from_millis(1999))), 1999);
    assert_eq!(milliseconds_of(Some(Duration::from_secs(2))), 2000);
    assert_eq!(seconds_of(Some(Duration::MAX)), i64::MAX);
    assert_eq!(milliseconds_of(Some(Duration::MAX)), i64::MAX);
    assert_eq!(seconds_of(Some(Duration::from_secs(i64::MAX as u64))), i64::MAX);
}

#[test]
fn white_space_is_what_unicode_calls_white_space() {
    let spaces = [
        "\u{0009}", "\u{000A}", "\u{000B}", "\u{000C}", "\u{000D}", "\u{0020}", "\u{0085}",
        "\u{00A0}", "\u{1680}", "\u{2000}", "\u{2005}", "\u{200A}", "\u{2028}", "\u{2029}",
        "\u{202F}", "\u{205F}", "\u{3000}",
    ];
    for space in spaces {
        let text = format!("{}ab{}cd{}", space, space, space);
        assert_eq!(split_tokens(text.as_bytes()), vec![b"ab".to_vec(), b"cd".to_vec()]);
        assert_eq!(trim(text.as_bytes()), format!("ab{}cd", space).into_bytes());
        let expected: Vec<&str> = text.split_whitespace().collect();
        assert_eq!(expected, vec!["ab", "cd"]);
    }
    // neighbours of the white-space characters are none
    for other in ["\u{0084}", "\u{00A1}", "\u{200B}", "\u{180E}", "\u{2027}", "\u{3001}", "é"] {
        let text = format!("ab{}cd", other);
        assert_eq!(split_tokens(text.as_bytes()), vec![text.clone().into_bytes()]);
        let framed = format!("{}x{}", other, other);
        assert_eq!(trim(framed.as_bytes()), framed.clone().into_bytes());
        assert_eq!(framed.trim(), framed);
    }
    let ep = parse_endpoint_string("tcp\u{00A0}-h\u{3000}127.0.0.1\u{2003}-p 10000").unwrap();
    assert_eq!(ep.host, "127.0.0.1");
    assert_eq!(ep.port, 10000);
    assert_eq!(trim("\u{2000} \u{3000}".as_bytes()), Vec::<u8>::new());
    assert_eq!(split_tokens("\u{2000} \u{3000}".as_bytes()), Vec::<Vec<u8>>::new());
}

#[test]
fn a_time_without_a_date_is_written_as_its_number() {
    assert_eq!(timestamp_at(-1), "0");
    assert_eq!(timestamp_at(i64::MAX), "9223372036854775807");
    assert_eq!(timestamp_at(253402300800000), "253402300800000");
    let stamp = timestamp_at(86_400_000 * 365);
    assert_eq!(stamp.len(), "1971-01-01 00:00:00.000".len());
    assert!(stamp.starts_with("1970-12-31") || stamp.starts_with("1971-01-01"));
    assert!(stamp.ends_with(".000"));
    let late = timestamp_at(253402300799999);
    assert!(late.ends_with(".999"));
}

#[test]
fn a_response_time_beyond_32_bits_counts_as_the_nearest_bound() {
    let reporter = StatReporter::new(&StatConfig::default());
    let info = reporter.report_success("S", "f", "h", 1, i64::MAX);
    assert_eq!(info.body.total_rsp_time, i32::MAX as i64);
    assert_eq!(info.body.max_rsp_time, i32::MAX);
    let info = reporter.report_timeout("S", "f", "h", 1, i64::MIN);
    assert_eq!(info.body.total_rsp_time, i32::MIN as i64);
    assert_eq!(info.body.min_rsp_time, i32::MIN);
    let info = reporter.report_exception("S", "f", "h", 1, -7, 12);
    assert_eq!(info.body.total_rsp_time, 12);
    let mut body = StatMicMsgBody::new();
    body.add_response_time(1 << 40);
    assert_eq!(body.total_rsp_time, i32::MAX as i64);
    assert_eq!(body.max_rsp_time, i32::MAX);
}
