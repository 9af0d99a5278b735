use std::time::Duration;

use tokio_rustls::rustls::pki_types::ServerName;

use tars::adapter::{AdapterProxy, Delivery};
use tars::application::{servant_config, AppState, Application, ApplicationBuilder};
use tars::codec::{PackageStatus, StringMap};
use tars::communicator::{connection_config, new_communicator, Communicator};
use tars::endpoint::Endpoint;
use tars::error::TarsError;
use tars::filter::{build_chain, Filters, Message};
use tars::logger::{
    build_log_request, LogBatcher, LogLevel, RemoteLogConfig, RemoteTimeWriter, TarsLogger,
};
use tars::protocol::{LogInfo, ResponsePacket};
use tars::selector::{ConsistentHash, DefaultMessage, HashType, Selector};
use tars::servant::{finish_call, timeout_field, ServantProxy, WaitOutcome};
use tars::stat::{
    build_stat_request, CallTimer, GlobalStatReporter, StatConfig, StatReporter, StatTable,
};
use tars::transport::tls::parse_server_name;
use tars::transport::framing::{
    admits, after_attempt, body_length, drain_step, idle_close, idle_expired, DrainStep,
    FrameAssembler, FrameStep, RetryStep,
};
use tars::transport::{
    ConnectionStatus, TarsClient, TarsClientConfig, TarsServer, TarsServerConfig,
};
use tars::util::{Context, ServerConfig};

#[test]
fn test_log_level_ordering() {
    assert!(LogLevel::Trace < LogLevel::Debug);
    assert!(LogLevel::Debug < LogLevel::Info);
    assert!(LogLevel::Info < LogLevel::Warn);
    assert!(LogLevel::Warn < LogLevel::Error);
}

#[test]
fn test_connection_status() {
    let status = ConnectionStatus::Active;
    assert_eq!(status, ConnectionStatus::Active);
}

#[test]
fn test_client_config_default() {
    let config = TarsClientConfig::default();
    assert!(config.is_tcp());
    assert_eq!(config.queue_len, 10000);
}

#[test]
fn test_client_config_builder() {
    let config =
        TarsClientConfig::tcp().with_queue_len(5000).with_idle_timeout(Duration::from_secs(300));

    assert!(config.is_tcp());
    assert_eq!(config.queue_len, 5000);
    assert_eq!(config.idle_timeout, Duration::from_secs(300));
}

#[test]
fn test_server_config_default() {
    let config = TarsServerConfig::tcp("0.0.0.0:10000");
    assert!(config.is_tcp());
    assert_eq!(config.address, "0.0.0.0:10000");
}

#[test]
fn test_server_config_builder() {
    let config =
        TarsServerConfig::tcp("0.0.0.0:10000").with_max_invoke(100000).with_tcp_no_delay(true);

    assert_eq!(config.max_invoke, 100000);
    assert!(config.tcp_no_delay);
}

#[test]
fn transport_config_values() {
    let config = TarsClientConfig::udp();
    assert!(config.is_udp());
    assert_eq!(config.dial_timeout, Duration::from_secs(3));
    assert_eq!(config.idle_timeout, Duration::from_secs(600));
    let config = TarsClientConfig::ssl()
        .with_read_timeout(Duration::from_millis(1))
        .with_write_timeout(Duration::from_millis(2))
        .with_dial_timeout(Duration::from_millis(3));
    assert!(config.is_ssl());
    assert!(config.has_tls);
    assert_eq!(config.read_timeout, Duration::from_millis(1));
    assert_eq!(config.write_timeout, Duration::from_millis(2));
    assert_eq!(config.dial_timeout, Duration::from_millis(3));
    let config = TarsServerConfig::default();
    assert_eq!(config.address, "0.0.0.0:10000");
    assert_eq!(config.max_invoke, 200000);
    assert_eq!(config.accept_timeout, Duration::from_secs(10));
    assert_eq!(config.handle_timeout, Duration::from_secs(60));
    let config = TarsServerConfig::udp("a:1")
        .with_accept_timeout(Duration::from_secs(1))
        .with_read_timeout(Duration::from_secs(2))
        .with_write_timeout(Duration::from_secs(3))
        .with_handle_timeout(Duration::from_secs(4))
        .with_idle_timeout(Duration::from_secs(5))
        .with_queue_cap(6);
    assert!(config.is_udp());
    assert_eq!(config.idle_timeout, Duration::from_secs(5));
    assert_eq!(config.queue_cap, 6);
    assert!(TarsServerConfig::ssl("a:1").is_ssl());
}

#[test]
fn test_client_creation() {
    let config = TarsClientConfig::tcp();
    let mut client = TarsClient::new("127.0.0.1:9999", config);

    assert!(!client.is_closed());
    client.close();
    assert!(client.is_closed());
}

#[test]
fn client_bookkeeping() {
    let mut client = TarsClient::new("h:1", TarsClientConfig::tcp());
    assert_eq!(client.address(), "h:1");
    assert!(client.send().is_ok());
    assert!(client.send().is_ok());
    assert_eq!(client.invoke_count(), 2);
    client.write_failed();
    assert_eq!(client.invoke_count(), 1);
    assert!(client.reconnect().is_ok());
    assert!(client.check_tls().is_ok());
    client.close();
    assert_eq!(client.send(), Err(TarsError::ConnectionClosed));
    assert_eq!(client.reconnect(), Err(TarsError::ConnectionClosed));
    assert_eq!(client.invoke_count(), 1);
    let mut config = TarsClientConfig::ssl();
    config.has_tls = false;
    let client = TarsClient::new("h:1", config);
    assert!(matches!(client.check_tls(), Err(TarsError::Config(_))));
}

#[test]
fn test_server_creation() {
    let config = TarsServerConfig::tcp("127.0.0.1:0");
    let server = TarsServer::new(config);

    assert!(!server.is_closed());
    assert_eq!(server.connection_count(), 0);
    assert_eq!(server.invoke_count(), 0);
}

#[test]
fn server_admits_below_the_limit() {
    let mut server = TarsServer::new(TarsServerConfig::tcp("a:1").with_max_invoke(2));
    assert!(server.begin_invoke());
    assert!(server.begin_invoke());
    assert!(!server.begin_invoke());
    assert_eq!(server.invoke_count(), 2);
    server.end_invoke();
    assert!(server.begin_invoke());
    server.connection_opened();
    assert_eq!(server.connection_count(), 1);
    server.connection_closed();
    server.shutdown();
    assert!(server.is_closed());
    assert!(admits(0, 1));
    assert!(!admits(1, 1));
    assert!(!admits(0, 0));
}

#[test]
fn a_prefix_without_a_body_is_no_frame() {
    let mut assembler = FrameAssembler::new();
    assembler.push(&[0, 0, 0, 4, 0, 0, 0, 5, 1]);
    assert!(matches!(assembler.next_frame(), FrameStep::Invalid));
    assert_eq!(assembler.len(), 9);
    assert_eq!(
        body_length(&[0, 0, 0, 4]).err(),
        Some(TarsError::Protocol("Package too small".to_string()))
    );
    assert_eq!(
        body_length(&[0, 0, 0]).err(),
        Some(TarsError::Protocol("Package too small".to_string()))
    );
    assert_eq!(
        body_length(&[0x06, 0x40, 0x00, 0x01]).err(),
        Some(TarsError::Protocol("Package too large".to_string()))
    );
    assert_eq!(body_length(&[0, 0, 0, 5]), Ok(1));
    assert_eq!(body_length(&[0x06, 0x40, 0x00, 0x00]), Ok(100 * 1024 * 1024 - 4));
}

#[test]
fn frames_are_cut_from_the_stream() {
    let mut assembler = FrameAssembler::new();
    assembler.push(&[0, 0, 0, 6, 1]);
    assert!(matches!(assembler.next_frame(), FrameStep::NeedMore));
    assembler.push(&[2, 0, 0, 0, 5, 9, 0, 0]);
    match assembler.next_frame() {
        FrameStep::Frame(f) => assert_eq!(f, vec![0, 0, 0, 6, 1, 2]),
        other => panic!("{:?}", other),
    }
    match assembler.next_frame() {
        FrameStep::Frame(f) => assert_eq!(f, vec![0, 0, 0, 5, 9]),
        other => panic!("{:?}", other),
    }
    assert!(matches!(assembler.next_frame(), FrameStep::NeedMore));
    assert_eq!(assembler.len(), 2);
    assembler.push(&[0, 3]);
    assert!(matches!(assembler.next_frame(), FrameStep::Invalid));
    assert_eq!(assembler.len(), 4);
    // what a protocol handler reports is acted on
    let mut assembler = FrameAssembler::new();
    assembler.push(&[7, 8, 9]);
    assert!(matches!(assembler.take(9, PackageStatus::Full), FrameStep::Invalid));
    assert!(matches!(assembler.take(0, PackageStatus::Full), FrameStep::Invalid));
    assert!(matches!(assembler.take(0, PackageStatus::Less), FrameStep::NeedMore));
    assert!(matches!(assembler.take(0, PackageStatus::Error), FrameStep::Invalid));
    match assembler.take(2, PackageStatus::Full) {
        FrameStep::Frame(f) => assert_eq!(f, vec![7, 8]),
        other => panic!("{:?}", other),
    }
    assert_eq!(assembler.len(), 1);
}

#[test]
fn connection_policies() {
    assert_eq!(after_attempt(2, true), (RetryStep::Again, 0));
    assert_eq!(after_attempt(0, false), (RetryStep::Backoff(100), 1));
    assert_eq!(after_attempt(1, false), (RetryStep::Backoff(200), 2));
    assert_eq!(after_attempt(2, false), (RetryStep::Backoff(300), 3));
    assert_eq!(after_attempt(3, false), (RetryStep::GiveUp, 4));
    assert!(idle_close(0));
    assert!(!idle_close(1));
    assert_eq!(drain_step(0, 0), DrainStep::Done);
    assert_eq!(drain_step(1, 30000), DrainStep::Wait);
    assert_eq!(drain_step(1, 30001), DrainStep::Force);
    assert!(idle_expired(601, 600));
    assert!(!idle_expired(600, 600));
}

#[test]
fn test_parse_server_name() {
    let name = parse_server_name("example.com:443").unwrap();
    assert!(matches!(name, ServerName::DnsName(_)));

    let name = parse_server_name("localhost").unwrap();
    assert!(matches!(name, ServerName::DnsName(_)));
}

#[test]
fn server_names_and_refusals() {
    let name = parse_server_name("127.0.0.1:443").unwrap();
    assert!(matches!(name, ServerName::IpAddress(_)));
    assert_eq!(parse_server_name("example.com:443").unwrap().to_str(), "example.com");
    assert_eq!(
        parse_server_name("not a name:1").err(),
        Some(TarsError::Config("Invalid server name 'not a name': invalid dns name".to_string()))
    );
    assert!(parse_server_name(":443").is_err());
}

#[test]
fn test_adapter_proxy_creation() {
    let endpoint = Endpoint::tcp("127.0.0.1", 10000);
    let adapter = AdapterProxy::new(endpoint);

    assert!(adapter.is_active());
    assert!(!adapter.is_closed());
}

#[test]
fn test_adapter_statistics() {
    let endpoint = Endpoint::tcp("127.0.0.1", 10000);
    let mut adapter = AdapterProxy::new(endpoint);

    adapter.success_add();
    adapter.success_add();
    adapter.fail_add();

    assert_eq!(adapter.success_count(), 2);
    assert_eq!(adapter.fail_count(), 1);
    assert_eq!(adapter.consecutive_fail_count(), 1);
    assert_eq!(adapter.send_count(), 0);
    adapter.send();
    assert_eq!(adapter.send_count(), 1);
}

#[test]
fn adapter_health_check() {
    let mut adapter = AdapterProxy::new_at(Endpoint::tcp("h", 1), 1000);
    assert_eq!(adapter.endpoint().port, 1);
    assert_eq!(adapter.check_active_at(1000), (false, false));
    // five failures in a row, but a success less than five seconds ago
    for _ in 0..5 {
        adapter.send();
        adapter.fail_add();
    }
    assert_eq!(adapter.check_active_at(1004), (false, false));
    assert!(adapter.is_active());
    assert_eq!(adapter.check_active_at(1005), (true, false));
    assert!(!adapter.is_active());
    // inactive: a probe every thirty seconds, counted from the block
    assert_eq!(adapter.check_active_at(1034), (false, false));
    assert_eq!(adapter.check_active_at(1035), (false, true));
    assert!(!adapter.is_active());
    assert_eq!(adapter.check_active_at(1064), (false, false));
    assert_eq!(adapter.check_active_at(1065), (false, true));
    adapter.success_add_at(1066);
    assert!(adapter.is_active());
    assert_eq!(adapter.check_active_at(1067), (true, false));
    // the ratio: at least two failures and at least half of what was sent
    let mut adapter = AdapterProxy::new_at(Endpoint::tcp("h", 1), 0);
    for _ in 0..4 {
        adapter.send();
    }
    adapter.fail_add();
    adapter.success_add_at(58);
    adapter.fail_add();
    assert_eq!(adapter.check_active_at(59), (false, false));
    assert_eq!(adapter.check_active_at(60), (true, false));
    let mut adapter = AdapterProxy::new_at(Endpoint::tcp("h", 1), 0);
    for _ in 0..5 {
        adapter.send();
    }
    adapter.fail_add();
    adapter.success_add_at(58);
    adapter.fail_add();
    assert_eq!(adapter.check_active_at(60), (false, false));
    adapter.reset_at_time(61);
    assert!(adapter.is_active());
    adapter.close();
    assert!(adapter.is_closed());
    assert_eq!(adapter.check_active_at(100000), (false, false));
    adapter.reset();
    let _ = adapter.check_active();
    adapter.success_add();
}

#[test]
fn adapter_demux_out_of_order() {
    let mut adapter = AdapterProxy::new_at(Endpoint::tcp("h", 1), 0);
    let ids: Vec<i32> = (1..=50).collect();
    let tickets: Vec<u64> = ids.iter().map(|&id| adapter.register_response(id)).collect();
    let distinct: std::collections::HashSet<u64> = tickets.iter().cloned().collect();
    assert_eq!(distinct.len(), tickets.len());
    // the responses arrive in reverse
    for (&id, &ticket) in ids.iter().zip(tickets.iter()).rev() {
        let rsp = ResponsePacket::success(id, vec![]);
        assert_eq!(adapter.handle_response(&rsp), Delivery::Deliver(ticket));
        // a second response with the same id finds nobody waiting
        assert_eq!(adapter.handle_response(&rsp), Delivery::Unmatched);
    }
    let ticket = adapter.register_response(9);
    adapter.unregister_response(9);
    adapter.unregister_response(9);
    assert_eq!(adapter.handle_response(&ResponsePacket::success(9, vec![])), Delivery::Unmatched);
    assert_eq!(ticket, 50);
    // pushes
    assert_eq!(adapter.handle_response(&ResponsePacket::success(0, vec![1])), Delivery::Push);
    assert_eq!(
        adapter.handle_response(&ResponsePacket::error(0, 0, "_reconnect_")),
        Delivery::Reconnect
    );
    let kept = adapter.register_response(3);
    adapter.close();
    assert_eq!(adapter.handle_response(&ResponsePacket::success(3, vec![])), Delivery::Unmatched);
    assert_eq!(kept, 51);
}

#[test]
fn test_servant_proxy_creation() {
    let endpoints = vec![Endpoint::tcp("127.0.0.1", 10000)];
    let config = TarsClientConfig::tcp();
    let proxy = ServantProxy::new("Test.HelloServer.HelloObj", endpoints, config);

    assert_eq!(proxy.name(), "Test.HelloServer.HelloObj");
}

#[test]
fn test_servant_proxy_timeout() {
    let endpoints = vec![Endpoint::tcp("127.0.0.1", 10000)];
    let config = TarsClientConfig::tcp();
    let mut proxy = ServantProxy::new("Test.HelloServer.HelloObj", endpoints, config);

    proxy.set_timeout(5000);
    assert_eq!(proxy.timeout(), Duration::from_millis(5000));
}

#[test]
fn servant_call_life() {
    let endpoints = vec![Endpoint::tcp("h", 1), Endpoint::tcp("h", 2), Endpoint::tcp("h", 1)];
    let mut proxy = ServantProxy::new("A.B.C", endpoints, TarsClientConfig::tcp());
    assert_eq!(proxy.adapter_count(), 2);
    assert_eq!(proxy.timeout(), Duration::from_millis(3000));
    proxy.set_timeout(1500);

    let mut ctx = Context::new_at(0);
    ctx.set_dyeing_key("d");
    ctx.set_trace_key("t");
    let mut status = StringMap::new();
    status.insert("s".to_string(), "1".to_string());
    let req = proxy.build_request(&ctx, 77, 0, "f", vec![1], status, StringMap::new());
    assert_eq!(req.i_request_id, 77);
    assert_eq!(req.s_servant_name, "A.B.C");
    assert_eq!(req.s_func_name, "f");
    assert_eq!(req.i_timeout, 1500);
    assert_eq!(req.i_message_type, 12);
    assert_eq!(req.status.len(), 3);
    assert_eq!(req.status.get("STATUS_DYED_KEY"), Some(&"d".to_string()));
    assert_eq!(req.status.get("STATUS_TRACE_KEY"), Some(&"t".to_string()));
    let plain = proxy.build_request(
        &Context::new_at(0),
        1,
        1,
        "g",
        vec![],
        StringMap::new(),
        StringMap::new(),
    );
    assert_eq!(plain.i_message_type, 0);
    assert!(plain.is_oneway());
    assert!(plain.status.is_empty());

    proxy.enter().unwrap();
    assert_eq!(proxy.queue_len(), 1);
    let msg = Message::with_request_at(req, 0);
    let adapter = proxy.select_adapter(&msg).unwrap();
    assert_eq!(proxy.adapter(adapter).endpoint().port, 1);
    let ticket = proxy.begin_call(adapter, 77);
    assert_eq!(ticket, 0);
    let result = proxy.complete_at(
        adapter,
        77,
        WaitOutcome::Response(ResponsePacket::success(77, vec![5])),
        10,
    );
    assert_eq!(result.unwrap().s_buffer, vec![5]);
    assert_eq!(proxy.queue_len(), 0);

    proxy.enter().unwrap();
    let result = proxy.complete_at(
        adapter,
        78,
        WaitOutcome::Response(ResponsePacket::error(78, -1, "bad")),
        10,
    );
    assert_eq!(
        result.err(),
        Some(TarsError::ServerError { code: -1, message: "bad".to_string() })
    );
    proxy.enter().unwrap();
    assert_eq!(
        proxy.complete_at(adapter, 79, WaitOutcome::TimedOut, 10).err(),
        Some(TarsError::Timeout(1500))
    );
    proxy.enter().unwrap();
    assert_eq!(
        proxy.complete_at(adapter, 80, WaitOutcome::Closed, 10).err(),
        Some(TarsError::ConnectionClosed)
    );
    proxy.enter().unwrap();
    assert_eq!(
        proxy.send_failed(adapter, 81, TarsError::ConnectionClosed).err(),
        Some(TarsError::ConnectionClosed)
    );
    assert_eq!(proxy.queue_len(), 0);

    // the second selection goes to the next endpoint
    let adapter = proxy.select_adapter(&DefaultMessage::new()).unwrap();
    assert_eq!(proxy.adapter(adapter).endpoint().port, 2);
    proxy.refresh_endpoints(vec![Endpoint::tcp("h", 3)]);
    assert_eq!(proxy.adapter_count(), 1);
    assert_eq!(proxy.adapter(0).endpoint().port, 3);
    proxy.refresh_endpoints(vec![]);
    assert_eq!(
        proxy.select_adapter(&DefaultMessage::with_hash(1, HashType::ModHash)).err(),
        Some(TarsError::NoEndpoint)
    );
}

#[test]
fn servant_messages_of_the_three_calls() {
    let mut proxy = ServantProxy::new("A.B.C", vec![Endpoint::tcp("h", 1)], TarsClientConfig::tcp());
    proxy.set_timeout(700);
    let mut ctx = Context::new_at(0);
    ctx.set_dyeing_key("d");
    let mut status = StringMap::new();
    status.insert("s".to_string(), "1".to_string());
    let mut context = StringMap::new();
    context.insert("k".to_string(), "v".to_string());

    let normal = proxy.invoke_message(&ctx, 5, "f", vec![1, 2], status.clone(), context.clone());
    assert_eq!(normal.req.c_packet_type, 0);
    assert_eq!(normal.req.i_message_type, 4);
    assert_eq!(normal.req.i_request_id, 5);
    assert_eq!(normal.req.i_timeout, 700);
    assert_eq!(normal.req.s_buffer, vec![1, 2]);
    assert_eq!(normal.req.status.get("STATUS_DYED_KEY"), Some(&"d".to_string()));
    assert_eq!(normal.req.context.get("k"), Some(&"v".to_string()));
    assert!(!normal.is_hash);

    let oneway = proxy.oneway_message(6, "g", vec![3], status, context);
    assert!(oneway.req.is_oneway());
    assert_eq!(oneway.req.i_message_type, 0);
    assert_eq!(oneway.req.status.len(), 1);
    assert_eq!(oneway.req.context.len(), 1);
    assert_eq!(oneway.req.s_servant_name, "A.B.C");

    let hashed = proxy.hash_message(7, "h", vec![], 12345, HashType::ConsistentHash);
    assert!(hashed.is_hash);
    assert_eq!(hashed.hash_code, 12345);
    assert_eq!(hashed.hash_type, HashType::ConsistentHash);
    assert_eq!(hashed.req.c_packet_type, 0);
    assert!(hashed.req.status.is_empty());
    assert!(hashed.req.context.is_empty());
    assert_eq!(hashed.req.s_func_name, "h");
}

#[test]
fn servant_routes_hash_calls_by_the_hash_code() {
    let endpoints =
        vec![Endpoint::tcp("h", 10000), Endpoint::tcp("h", 10001), Endpoint::tcp("h", 10002)];
    let mut proxy = ServantProxy::new("A", endpoints.clone(), TarsClientConfig::tcp());

    // calls without a hash code go round
    let mut ports = Vec::new();
    for id in 1..=4 {
        let msg = proxy.oneway_message(id, "f", vec![], StringMap::new(), StringMap::new());
        let at = proxy.select_adapter(&msg).unwrap();
        ports.push(proxy.adapter(at).endpoint().port);
    }
    assert_eq!(ports, vec![10000, 10001, 10002, 10000]);

    // mod-hash: the hash code modulo the number of endpoints
    for (hash, port) in [(0u32, 10000u16), (1, 10001), (2, 10002), (12345, 10000)] {
        let msg = proxy.hash_message(9, "f", vec![], hash, HashType::ModHash);
        assert_eq!(proxy.select_endpoint(&msg).unwrap().port, port);
        let at = proxy.select_adapter(&msg).unwrap();
        assert_eq!(proxy.adapter(at).endpoint().port, port);
    }

    // consistent hash: as a ring of the same endpoints routes
    let mut ring = ConsistentHash::with_nodes(endpoints);
    for hash in [0u32, 1, 12345, 0x8000_0000, u32::MAX] {
        let msg = proxy.hash_message(9, "f", vec![], hash, HashType::ConsistentHash);
        let expected = ring.select(&DefaultMessage::with_hash(hash, HashType::ConsistentHash));
        assert_eq!(proxy.select_endpoint(&msg).unwrap(), expected.unwrap());
    }

    // a hash call does not move the round on
    let msg = proxy.oneway_message(5, "f", vec![], StringMap::new(), StringMap::new());
    assert_eq!(proxy.select_endpoint(&msg).unwrap().port, 10001);

    let mut empty = ServantProxy::new("A", vec![], TarsClientConfig::tcp());
    for hash_type in [HashType::ModHash, HashType::ConsistentHash] {
        let msg = empty.hash_message(1, "f", vec![], 7, hash_type);
        assert_eq!(empty.select_adapter(&msg), Err(TarsError::NoEndpoint));
    }
    empty.refresh_endpoints(vec![Endpoint::tcp("h", 1)]);
    let msg = empty.hash_message(1, "f", vec![], 7, HashType::ConsistentHash);
    assert_eq!(empty.select_endpoint(&msg).unwrap().port, 1);
}

#[test]
fn refreshing_endpoints_keeps_the_adapters_that_stay() {
    let endpoints = vec![Endpoint::tcp("h", 1), Endpoint::tcp("h", 2), Endpoint::tcp("h", 3)];
    let mut proxy = ServantProxy::new("A", endpoints, TarsClientConfig::tcp());
    for i in 0..3 {
        assert_eq!(proxy.adapter(i).send_count(), 0);
        assert!(proxy.adapter(i).is_active());
        assert!(!proxy.adapter(i).is_closed());
    }
    // the adapter of port 2 has a history, a request waits on that of port 3
    let first = proxy.begin_call(1, 50);
    assert_eq!(first, 0);
    assert_eq!(proxy.adapter(1).send_count(), 1);
    assert_eq!(proxy.adapter(1).endpoint().port, 2);
    let waiting = proxy.begin_call(2, 60);
    proxy.begin_call(1, 51);
    assert_eq!(proxy.adapter(1).send_count(), 2);

    proxy.refresh_endpoints(vec![Endpoint::tcp("h", 4), Endpoint::tcp("h", 3), Endpoint::tcp("h", 2)]);
    assert_eq!(proxy.adapter_count(), 3);
    // those that stay come first, in their order, as they were
    assert_eq!(proxy.adapter(0).endpoint().port, 2);
    assert_eq!(proxy.adapter(0).send_count(), 2);
    assert!(!proxy.adapter(0).is_closed());
    assert_eq!(proxy.adapter(1).endpoint().port, 3);
    assert_eq!(proxy.adapter(1).send_count(), 1);
    assert_eq!(
        proxy.deliver(1, &ResponsePacket::success(60, vec![])),
        Delivery::Deliver(waiting)
    );
    // the new one is as it is made
    assert_eq!(proxy.adapter(2).endpoint().port, 4);
    assert_eq!(proxy.adapter(2).send_count(), 0);
    assert!(proxy.adapter(2).is_active());
    assert!(!proxy.adapter(2).is_closed());
    assert_eq!(proxy.begin_call(2, 1), 0);
    assert_eq!(proxy.begin_call(0, 52), 2);
}

#[test]
fn servant_delivers_by_request_id() {
    let endpoints = vec![Endpoint::tcp("h", 1), Endpoint::tcp("h", 2)];
    let mut proxy = ServantProxy::new("A", endpoints, TarsClientConfig::tcp());
    let first = proxy.begin_call(0, 10);
    let second = proxy.begin_call(0, 11);
    let other = proxy.begin_call(1, 10);
    assert_ne!(first, second);
    assert_eq!(
        proxy.deliver(0, &ResponsePacket::success(11, vec![])),
        Delivery::Deliver(second)
    );
    assert_eq!(proxy.deliver(0, &ResponsePacket::success(11, vec![])), Delivery::Unmatched);
    assert_eq!(
        proxy.deliver(1, &ResponsePacket::success(10, vec![])),
        Delivery::Deliver(other)
    );
    assert_eq!(
        proxy.deliver(0, &ResponsePacket::success(10, vec![])),
        Delivery::Deliver(first)
    );
    assert_eq!(proxy.deliver(0, &ResponsePacket::success(0, vec![])), Delivery::Push);
    assert_eq!(
        proxy.deliver(0, &ResponsePacket::error(0, 0, "_reconnect_")),
        Delivery::Reconnect
    );

    proxy.begin_oneway(1);
    proxy.oneway_sent_at(1, 50);
    assert!(proxy.adapter(1).is_active());

    assert_eq!(finish_call(WaitOutcome::Closed, 9).err(), Some(TarsError::ConnectionClosed));
    assert_eq!(finish_call(WaitOutcome::TimedOut, 9).err(), Some(TarsError::Timeout(9)));
    let answer = finish_call(WaitOutcome::Response(ResponsePacket::success(3, vec![8])), 9);
    assert_eq!(answer.unwrap().s_buffer, vec![8]);
    let refused = finish_call(WaitOutcome::Response(ResponsePacket::error(3, -99, "no")), 9);
    assert_eq!(
        refused.err(),
        Some(TarsError::ServerError { code: -99, message: "no".to_string() })
    );
}

#[test]
fn success_makes_an_inactive_endpoint_active() {
    let mut adapter = AdapterProxy::new_at(Endpoint::tcp("h", 1), 0);
    for _ in 0..5 {
        adapter.send();
        adapter.fail_add();
    }
    assert_eq!(adapter.check_active_at(5), (true, false));
    assert!(!adapter.is_active());
    adapter.success_add_at(6);
    assert!(adapter.is_active());
}

#[test]
fn servant_queue_cap() {
    let mut proxy = ServantProxy::new("A", vec![], TarsClientConfig::tcp());
    for _ in 0..10001 {
        proxy.enter().unwrap();
    }
    assert_eq!(proxy.enter(), Err(TarsError::QueueFull));
    assert_eq!(proxy.queue_len(), 10001);
    proxy.leave();
    assert!(proxy.enter().is_ok());
    assert_eq!(timeout_field(3000), 3000);
    assert_eq!(timeout_field(u64::MAX), -1);
    assert_eq!(timeout_field(1 << 32), 0);
    assert_eq!(timeout_field(0x8000_0000), i32::MIN);
}

#[test]
fn test_message() {
    let mut msg = Message::new();
    assert!(msg.begin_time > 0);
    assert_eq!(msg.end_time, 0);

    msg.finish();
    assert!(msg.end_time >= msg.begin_time);
}

#[test]
fn message_times_and_filter_order() {
    let mut msg = Message::new_at(100);
    assert_eq!(msg.elapsed_ms_at(130), 30);
    msg.finish_at(150);
    assert_eq!(msg.elapsed_ms_at(999), 50);
    assert_eq!(msg.elapsed_ms(), 50);
    let msg = Message::with_request(tars::protocol::RequestPacket::new());
    assert!(!msg.is_hash);
    let far = Message::new_at(i64::MIN);
    assert_eq!(far.elapsed_ms_at(i64::MAX), i64::MAX);
}

type TextFilter = Box<dyn Fn(String) -> String>;
type TextMiddleware = Box<dyn Fn(TextFilter) -> TextFilter>;

fn tagging_middleware(tag: &'static str) -> TextMiddleware {
    Box::new(move |next: TextFilter| -> TextFilter {
        Box::new(move |text: String| format!("{}({})", tag, next(text)))
    })
}

#[test]
fn test_filters() {
    let mut filters: Filters<TextFilter, TextMiddleware, TextFilter, TextMiddleware> =
        Filters::new();
    filters.use_client_middleware(tagging_middleware("log"));
    assert_eq!(filters.client_middlewares.len(), 1);
}

#[test]
fn filters_keep_what_is_registered_and_build_chains() {
    let mut filters: Filters<TextFilter, TextMiddleware, TextFilter, TextMiddleware> =
        Filters::new();
    assert!(filters.client_filter.is_none());
    filters.register_client_filter(Box::new(|text| text));
    filters.register_pre_client_filter(Box::new(|text| text));
    filters.register_post_client_filter(Box::new(|text| text));
    filters.register_post_client_filter(Box::new(|text| text));
    filters.register_server_filter(Box::new(|text| text));
    filters.register_pre_server_filter(Box::new(|text| text));
    filters.register_post_server_filter(Box::new(|text| text));
    assert!(filters.client_filter.is_some());
    assert!(filters.server_filter.is_some());
    assert_eq!(filters.pre_client_filters.len(), 1);
    assert_eq!(filters.post_client_filters.len(), 2);
    assert_eq!(filters.pre_server_filters.len(), 1);
    assert_eq!(filters.post_server_filters.len(), 1);

    filters.use_client_middleware(tagging_middleware("a"));
    filters.use_client_middleware(tagging_middleware("b"));
    filters.use_server_middleware(tagging_middleware("s"));
    let client = filters.build_client_filter(Box::new(|text| format!("<{}>", text)));
    assert_eq!(client("x".to_string()), "a(b(<x>))");
    let server = filters.build_server_filter(Box::new(|text| text));
    assert_eq!(server("y".to_string()), "s(y)");
}

#[test]
fn first_registered_middleware_is_outermost() {
    let none: Vec<Box<dyn Fn(String) -> String>> = Vec::new();
    assert_eq!(build_chain(&none, "x".to_string()), "x");
    let middlewares: Vec<Box<dyn Fn(String) -> String>> = vec![
        Box::new(|inner| format!("a({})", inner)),
        Box::new(|inner| format!("b({})", inner)),
        Box::new(|inner| format!("c({})", inner)),
    ];
    assert_eq!(build_chain(&middlewares, "x".to_string()), "a(b(c(x)))");
}

#[test]
fn logger_lines_carry_time_level_name_message() {
    let mut logger = TarsLogger::new("svc");
    assert_eq!(logger.debug("hidden"), None);
    assert_eq!(logger.trace("hidden"), None);
    let line = logger.info("hello").unwrap();
    assert!(line.ends_with("|INFO|svc|hello"));
    let stamp = &line[..line.len() - "|INFO|svc|hello".len()];
    assert_eq!(stamp.len(), "2000-01-01 00:00:00.000".len());
    assert_eq!(&stamp[4..5], "-");
    assert_eq!(&stamp[10..11], " ");
    assert_eq!(&stamp[19..20], ".");
    assert!(logger.warn("w").unwrap().ends_with("|WARN|svc|w"));
    assert!(logger.error("e").unwrap().ends_with("|ERROR|svc|e"));
    logger.set_level(LogLevel::Trace);
    assert!(logger.trace("t").unwrap().ends_with("|TRACE|svc|t"));
    assert!(logger.debug("d").unwrap().ends_with("|DEBUG|svc|d"));
    assert!(logger.log_now(LogLevel::Info, "n").unwrap().ends_with("|INFO|svc|n"));
}

#[test]
fn logger_levels_and_lines() {
    assert_eq!(LogLevel::Trace.as_str(), "TRACE");
    assert_eq!(LogLevel::Debug.as_str(), "DEBUG");
    assert_eq!(LogLevel::Info.as_str(), "INFO");
    assert_eq!(LogLevel::Warn.as_str(), "WARN");
    assert_eq!(LogLevel::Error.as_str(), "ERROR");
    assert_eq!(LogLevel::Error.severity(), 4);
    let mut logger = TarsLogger::new("core");
    assert!(!logger.enabled(LogLevel::Debug));
    assert!(logger.enabled(LogLevel::Info));
    assert_eq!(logger.log(LogLevel::Debug, "t", "m"), None);
    assert_eq!(
        logger.log(LogLevel::Warn, "2024-01-01 00:00:00.000", "disk full"),
        Some("2024-01-01 00:00:00.000|WARN|core|disk full".to_string())
    );
    logger.set_level(LogLevel::Error);
    assert_eq!(logger.log(LogLevel::Warn, "t", "m"), None);
    let config = RemoteLogConfig::default();
    assert_eq!(config.queue_size, 500_000);
    assert_eq!(config.max_batch_size, 2000);
    assert_eq!(config.flush_interval_ms, 1000);
    let mut writer = RemoteTimeWriter::new(config);
    writer.init_server_info("app", "srv", "file", "set");
    assert_eq!(writer.log_info().appname, "app");
    assert_eq!(writer.log_info().setdivision, "set");
    assert_eq!(writer.log_info().format, "%Y%m%d");
    assert_eq!(writer.server_addr(), "");
}

#[test]
fn log_batches() {
    let mut batcher = LogBatcher::new(3);
    assert_eq!(batcher.push("a".to_string(), true), None);
    assert_eq!(batcher.push("b".to_string(), true), None);
    assert_eq!(
        batcher.push("c".to_string(), true),
        Some(vec!["a".to_string(), "b".to_string(), "c".to_string()])
    );
    assert_eq!(batcher.tick(true), None);
    batcher.push("d".to_string(), true);
    assert_eq!(batcher.tick(true), Some(vec!["d".to_string()]));
    batcher.push("e".to_string(), false);
    assert_eq!(batcher.finish(false), None);
    assert_eq!(batcher.tick(false), None);
    assert_eq!(batcher.finish(true), None);
    batcher.push("f".to_string(), true);
    assert_eq!(batcher.finish(true), Some(vec!["f".to_string()]));
    let req =
        build_log_request(&LogInfo::new("a", "s", "f"), &["x".to_string()]).unwrap();
    assert_eq!(req.s_servant_name, "tars.tarslog.LogObj");
    assert_eq!(req.s_func_name, "loggerbyInfo");
    assert!(req.is_oneway());
    assert_eq!(req.i_timeout, 3000);
    assert_eq!(req.s_buffer[0], 0x0A);
    assert_eq!(&req.s_buffer[req.s_buffer.len() - 6..], &[0x19, 0x00, 0x01, 0x06, 1, b'x']);
}

#[test]
fn test_call_timer() {
    let timer = CallTimer::start_at(1000);
    let elapsed = timer.elapsed_ms_at(1010);
    assert!(elapsed >= 10);
    assert_eq!(elapsed, 10);
    assert_eq!(timer.elapsed_ms_at(990), 0);
    assert!(timer.elapsed_ms() >= 0);
}

#[test]
fn stat_reports_add_up() {
    let config = StatConfig::default();
    assert_eq!(config.report_interval_ms, 10_000);
    assert_eq!(config.channel_buf_size, 100_000);
    assert_eq!(config.tars_version, "1.0.0");
    let reporter = StatReporter::new(&config);
    let _ = reporter.start_call();
    let ok = reporter.report_success("S", "f", "1.2.3.4", 80, 7);
    assert_eq!(ok.head.master_ip, "127.0.0.1");
    assert_eq!(ok.head.slave_name, "S");
    assert_eq!(ok.head.return_value, 0);
    assert_eq!(ok.body.count, 1);
    assert_eq!(ok.body.interval_count.get(10), Some(1));
    let slow = reporter.report_timeout("S", "f", "1.2.3.4", 80, 3000);
    assert_eq!(slow.head.return_value, -3);
    assert_eq!(slow.body.timeout_count, 1);
    assert!(slow.body.interval_count.is_empty());
    let bad = reporter.report_exception("S", "f", "1.2.3.4", 80, -9, 1);
    assert_eq!(bad.head.return_value, -9);
    assert_eq!(bad.body.exec_count, 1);
    let served = reporter.report_from_server("f", "9.9.9.9", 0, 2);
    assert_eq!(served.head.slave_name, "stat_from_server");
    assert_eq!(served.head.master_name, "9.9.9.9");
    assert_eq!(served.body.count, 1);
    let failed = reporter.report_from_server("f", "9.9.9.9", 5, 2);
    assert_eq!(failed.body.exec_count, 1);

    let mut table = StatTable::new();
    table.record(ok);
    table.record(reporter.report_success("S", "f", "1.2.3.4", 80, 8));
    table.record(slow);
    table.record(served);
    let (client, server) = table.tick(true);
    let client = client.unwrap();
    assert_eq!(client.len(), 2);
    assert_eq!(client[0].body.count, 2);
    assert_eq!(client[0].body.total_rsp_time, 15);
    assert_eq!(client[0].body.interval_count.get(10), Some(2));
    assert_eq!(server.unwrap().len(), 1);
    let (client, server) = table.tick(true);
    assert!(client.is_none() && server.is_none());
    table.record(bad);
    let (client, server) = table.tick(false);
    assert!(client.is_none() && server.is_none());
    let req = build_stat_request(&[failed], true).unwrap();
    assert_eq!(req.s_servant_name, "tars.tarsstat.StatObj");
    assert_eq!(req.s_func_name, "reportMicMsg");
    assert_eq!(req.c_packet_type, 0);
    assert_eq!(&req.s_buffer[0..3], &[0x08, 0x00, 0x01]);
    assert_eq!(&req.s_buffer[req.s_buffer.len() - 2..], &[0x10, 0x01]);
}

#[test]
fn global_reporter_and_connection_config() {
    let mut global = GlobalStatReporter::new();
    assert!(global.reporter().is_none());
    global.init(StatReporter::new(&StatConfig::default()));
    let info = global.reporter().unwrap().report_success("S", "f", "1.2.3.4", 80, 12);
    assert_eq!(info.head.slave_name, "S");
    assert_eq!(info.body.count, 1);

    let mut config = tars::util::ClientConfig::default();
    config.queue_len = 7;
    config.dial_timeout = 11;
    config.idle_timeout = 12;
    config.read_timeout = 13;
    config.write_timeout = 14;
    let settings = connection_config(&config);
    assert!(settings.is_tcp());
    assert_eq!(settings.queue_len, 7);
    assert_eq!(settings.dial_timeout, Duration::from_millis(11));
    assert_eq!(settings.idle_timeout, Duration::from_millis(12));
    assert_eq!(settings.read_timeout, Duration::from_millis(13));
    assert_eq!(settings.write_timeout, Duration::from_millis(14));
    assert!(!settings.has_tls);
}

#[test]
fn test_communicator_creation() {
    let comm = Communicator::new();
    assert!(comm.locator().is_empty());
}

#[test]
fn test_communicator_properties() {
    let mut comm = Communicator::new();
    comm.set_property("key", "value");
    assert_eq!(comm.get_property("key"), Some("value".to_string()));
    assert_eq!(comm.get_property("nonexistent"), None);
}

#[test]
fn test_communicator_locator() {
    let mut comm = Communicator::new();
    comm.set_locator("tars.tarsregistry.QueryObj@tcp -h 127.0.0.1 -p 17890");
    assert!(comm.locator().contains("QueryObj"));
}

#[test]
fn test_string_to_proxy_direct() {
    let mut comm = Communicator::new();
    let result = comm.string_to_proxy("Test.HelloServer.HelloObj@tcp -h 127.0.0.1 -p 10000");
    assert!(result.is_ok());

    let proxy = comm.proxy(result.unwrap());
    assert_eq!(proxy.name(), "Test.HelloServer.HelloObj");
}

#[test]
fn test_string_to_proxy_empty() {
    let mut comm = Communicator::new();
    let result = comm.string_to_proxy("");
    assert!(result.is_err());
}

#[test]
fn test_hash_key() {
    let mut comm = Communicator::new();
    comm.set_property("locator", "test");
    let key1 = comm.hash_key();

    comm.set_property("locator", "test2");
    let key2 = comm.hash_key();

    assert_ne!(key1, key2);
}

#[test]
fn communicator_proxies_and_hash_key() {
    let mut comm = new_communicator();
    // the digest of nothing
    assert_eq!(comm.hash_key(), "d41d8cd98f00b204e9800998ecf8427e");
    comm.set_property("other", "x");
    assert_eq!(comm.hash_key(), "d41d8cd98f00b204e9800998ecf8427e");
    comm.set_locator("a");
    comm.set_property("setdivision", "c");
    comm.set_property("enableset", "b");
    // md5("locator:aenableset:bsetdivision:c")
    assert_eq!(comm.hash_key().len(), 32);
    let mut other = Communicator::new();
    other.set_property("enableset", "b");
    other.set_property("setdivision", "c");
    other.set_property("locator", "a");
    assert_eq!(comm.hash_key(), other.hash_key());
    assert_eq!(comm.config().locator, "a");

    assert!(matches!(comm.string_to_proxy(""), Err(TarsError::InvalidArgument(_))));
    assert_eq!(
        comm.string_to_proxy("App.Srv.Obj"),
        Err(TarsError::ServiceNotFound("App.Srv.Obj".to_string()))
    );
    let first = comm.get_servant_proxy("A@tcp -h h -p 1").unwrap();
    let again = comm.string_to_proxy("A@tcp -h h -p 1").unwrap();
    assert_eq!(first, again);
    assert_eq!(comm.proxy(first).timeout(), Duration::from_millis(3000));
    let second = comm.string_to_proxy("B@tcp -h h -p 2:udp -h h -p 3").unwrap();
    assert_ne!(first, second);
    assert_eq!(comm.proxy(second).adapter_count(), 2);
    comm.refresh_servant("A@tcp -h h -p 1", vec![Endpoint::tcp("h", 5), Endpoint::tcp("h", 6)])
        .unwrap();
    assert_eq!(comm.proxy(first).adapter_count(), 2);
    comm.refresh_servant("unknown", vec![]).unwrap();
}

#[test]
fn test_application_creation() {
    let app = Application::new();
    assert_eq!(app.state(), AppState::Init);
}

#[test]
fn test_application_builder() {
    let config = ServerConfig {
        app: "Test".to_string(),
        server: "HelloServer".to_string(),
        ..Default::default()
    };

    let app = ApplicationBuilder::new().server_config(config).build();

    assert_eq!(app.server_config().app, "Test");
    assert_eq!(app.server_config().server, "HelloServer");
}

#[test]
fn test_application_communicator() {
    let app = Application::new();
    let comm = app.communicator();
    assert!(comm.locator().is_empty());
}

#[test]
fn application_life() {
    let mut config = ServerConfig::default();
    config.max_invoke = 5;
    config.tcp_no_delay = true;
    config.idle_timeout = 1234;
    let servant = servant_config(&config, "0.0.0.0:1");
    assert_eq!(servant.address, "0.0.0.0:1");
    assert_eq!(servant.max_invoke, 5);
    assert!(servant.tcp_no_delay);
    assert_eq!(servant.idle_timeout, Duration::from_millis(1234));
    assert_eq!(servant.accept_timeout, Duration::from_millis(10000));
    let mut app = ApplicationBuilder::new()
        .server_config(config)
        .client_config(tars::util::ClientConfig::default())
        .build();
    assert_eq!(app.client_config().queue_len, 10000);
    app.add_servant("A.B.C", "0.0.0.0:1").unwrap();
    app.add_servant("A.B.D", "0.0.0.0:2").unwrap();
    app.run();
    assert_eq!(app.state(), AppState::Running);
    app.shutdown().unwrap();
    assert_eq!(app.state(), AppState::ShuttingDown);
    app.stopped();
    assert_eq!(app.state(), AppState::Stopped);
}
