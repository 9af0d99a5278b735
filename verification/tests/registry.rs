use tars::codec::Buffer;
use tars::endpoint::Endpoint;
use tars::error::TarsError;
use tars::protocol::{EndpointF, ResponsePacket};
use tars::registry::locator::{parse_all_nodes, parse_single_locator};
use tars::registry::query::{QueryRun, QueryStep};
use tars::registry::{
    DirectRegistrar, EndpointManager, NodeCircuitBreaker, Registrar, RegistryCircuitBreaker,
    TarsRegistry,
};

#[test]
fn test_direct_registrar() {
    let endpoints = vec![Endpoint::tcp("127.0.0.1", 10000), Endpoint::tcp("127.0.0.1", 10001)];
    let mut registrar = DirectRegistrar::new(endpoints);

    let (active, inactive) = registrar.query_servant("Test.HelloObj").unwrap();
    assert_eq!(active.len(), 2);
    assert!(inactive.is_empty());
}

#[test]
fn test_parse_single_node() {
    let registry = TarsRegistry::new("tars.tarsregistry.QueryObj@tcp -h 192.168.1.1 -p 17890");
    assert_eq!(registry.nodes().len(), 1);
    assert_eq!(registry.nodes()[0], "192.168.1.1:17890");
}

#[test]
fn test_parse_multiple_nodes() {
    let registry = TarsRegistry::new(
        "tars.tarsregistry.QueryObj@tcp -h 192.168.1.1 -p 17890:tcp -h 192.168.1.2 -p 17891",
    );
    assert_eq!(registry.nodes().len(), 2);
    assert!(registry.nodes().contains(&"192.168.1.1:17890".to_string()));
    assert!(registry.nodes().contains(&"192.168.1.2:17891".to_string()));
}

#[test]
fn locator_forms() {
    assert_eq!(
        parse_all_nodes("Obj@tcp -h A -p 1:tcp -h B -p 2"),
        vec!["A:1".to_string(), "B:2".to_string()]
    );
    assert_eq!(
        parse_all_nodes("Obj@tcp -h A -p 1:udp -h B -p 2:ssl -h C -p 3"),
        vec!["A:1".to_string(), "B:2".to_string(), "C:3".to_string()]
    );
    // no endpoint-spec names a host and a port: the simple reading with its defaults
    assert_eq!(parse_all_nodes("Obj@tcp"), vec!["127.0.0.1:17890".to_string()]);
    assert_eq!(parse_all_nodes("Obj@tcp -h H"), vec!["H:17890".to_string()]);
    assert_eq!(parse_all_nodes("Obj@tcp -p 9"), vec!["127.0.0.1:9".to_string()]);
    assert_eq!(parse_all_nodes("Obj"), Vec::<String>::new());
    assert_eq!(parse_all_nodes(""), Vec::<String>::new());
    // unknown tokens are passed over, a later flag replaces an earlier
    assert_eq!(
        parse_all_nodes("Obj@tcp -x y -h A -h B -p 1 -t 60"),
        vec!["B:1".to_string()]
    );
    // colons at the end of a port are left off
    assert_eq!(parse_all_nodes("Obj@tcp -h A -p 1: junk"), vec!["A:1".to_string()]);
    assert_eq!(parse_single_locator("Obj@tcp -h A -p 1@rest -h B"), Some("A:1".to_string()));
    assert_eq!(parse_single_locator("Obj"), None);
}

#[test]
fn test_circuit_breaker_initial_state() {
    let breaker = NodeCircuitBreaker::new("127.0.0.1:17890");
    assert!(breaker.is_available());
}

#[test]
fn test_circuit_breaker_opens_on_failure() {
    let mut breaker = NodeCircuitBreaker::new("127.0.0.1:17890");

    // First failure should open circuit (REGISTRY_FAIL_THRESHOLD = 1)
    let opened = breaker.record_failure();
    assert!(opened);
    assert!(!breaker.available());
}

#[test]
fn test_circuit_breaker_success_resets() {
    let mut breaker = NodeCircuitBreaker::new("127.0.0.1:17890");

    // Open the circuit
    breaker.record_failure();
    assert!(!breaker.available());

    // Success should reset
    breaker.record_success();
    assert!(breaker.available());
    assert_eq!(breaker.fail_count(), 0);
}

#[test]
fn circuit_breaker_lifecycle() {
    let mut breaker = NodeCircuitBreaker::new_at("n:1", 1000);
    assert_eq!(breaker.address(), "n:1");
    assert!(breaker.available());
    assert!(breaker.is_available_at(1000));
    assert!(breaker.record_failure_at(2000));
    assert!(!breaker.available());
    assert_eq!(breaker.fail_count(), 1);
    assert!(!breaker.is_available_at(2000));
    assert!(!breaker.is_available_at(2029));
    assert!(breaker.is_available_at(2030));
    assert!(breaker.is_available_at(5000));
    // a second failure does not open the circuit again, nor move its time
    assert!(!breaker.record_failure_at(2010));
    assert_eq!(breaker.fail_count(), 2);
    assert!(breaker.is_available_at(2030));
    breaker.record_success_at(2040);
    assert!(breaker.available());
    assert_eq!(breaker.fail_count(), 0);
    assert!(breaker.is_available_at(0));
    breaker.record_failure_at(3000);
    breaker.reset();
    assert!(breaker.available());
    assert_eq!(breaker.fail_count(), 0);
}

#[test]
fn test_registry_circuit_breaker_manager() {
    let mut manager = RegistryCircuitBreaker::new();
    let addresses = vec!["192.168.1.1:17890".to_string(), "192.168.1.2:17890".to_string()];

    // Initially all should be available
    let available = manager.filter_available(&addresses);
    assert_eq!(available.len(), 2);

    // Mark one as failed
    assert!(manager.get_breaker("192.168.1.1:17890").available());
    manager.record_failure("192.168.1.1:17890");

    // Now only one should be available
    let available = manager.filter_available(&addresses);
    assert_eq!(available.len(), 1);
    assert_eq!(available[0], "192.168.1.2:17890");
    assert_eq!(manager.available_count(&addresses), 1);
    assert!(!manager.get_breaker("192.168.1.1:17890").available());
    manager.reset_all();
    assert_eq!(manager.filter_available(&addresses).len(), 2);
}

#[test]
fn manager_at_given_times() {
    let mut manager = RegistryCircuitBreaker::new();
    let addresses = vec!["a:1".to_string(), "b:2".to_string(), "c:3".to_string()];
    assert!(manager.record_failure_at("b:2", 100));
    assert!(!manager.record_failure_at("b:2", 105));
    assert_eq!(
        manager.filter_available_at(&addresses, 129),
        vec!["a:1".to_string(), "c:3".to_string()]
    );
    assert_eq!(manager.available_count_at(&addresses, 130), 3);
    manager.record_success_at("b:2", 131);
    assert_eq!(manager.available_count_at(&addresses, 131), 3);
    manager.record_success_at("z:9", 131);
    assert!(manager.get_breaker("z:9").available());
}

#[test]
fn test_convert_endpoint() {
    let epf = EndpointF {
        host: "10.0.0.1".to_string(),
        port: 8080,
        timeout: 3000,
        istcp: 1,
        grid: 0,
        groupworkid: 0,
        grouprealid: 0,
        set_id: "test.1.1".to_string(),
        qos: 0,
        bak_flag: 0,
        weight: 100,
        weight_type: 0,
        auth_type: 0,
    };

    let ep = TarsRegistry::convert_endpoint(&epf);
    assert_eq!(ep.host, "10.0.0.1");
    assert_eq!(ep.port, 8080);
    assert_eq!(ep.timeout, 3000);
    assert_eq!(ep.weight, 100);
    assert_eq!(ep.set_id, "test.1.1");
}

#[test]
fn convert_endpoint_takes_numbers_bit_by_bit() {
    let mut epf = EndpointF::empty();
    epf.port = 65536 + 80;
    epf.timeout = -1;
    epf.weight = -1;
    epf.istcp = 2;
    let ep = TarsRegistry::convert_endpoint(&epf);
    assert_eq!(ep.port, 80);
    assert_eq!(ep.timeout, u64::MAX);
    assert_eq!(ep.weight, u32::MAX);
    assert!(ep.is_ssl());
    epf.port = -1;
    epf.istcp = 5;
    let ep = TarsRegistry::convert_endpoint(&epf);
    assert_eq!(ep.port, 65535);
    assert!(ep.is_udp());
}

#[test]
fn node_selection_is_round_robin_with_forced_probe() {
    let mut registry = TarsRegistry::new("Q@tcp -h a -p 1:tcp -h b -p 2:tcp -h c -p 3");
    assert_eq!(registry.locator(), "Q@tcp -h a -p 1:tcp -h b -p 2:tcp -h c -p 3");
    assert_eq!(registry.timeout(), 5000);
    assert_eq!(registry.available_nodes_count(), 3);
    assert_eq!(registry.select_node_at(0), Some("a:1".to_string()));
    assert_eq!(registry.select_node_at(0), Some("b:2".to_string()));
    registry.record_outcome_at("c:3", false, 10);
    // counter 2 among the two nodes that are left
    assert_eq!(registry.select_node_at(11), Some("a:1".to_string()));
    registry.record_outcome_at("a:1", false, 12);
    registry.record_outcome_at("b:2", false, 12);
    // nothing is available: a probe, round robin among all nodes
    assert_eq!(registry.select_node_at(13), Some("a:1".to_string()));
    assert_eq!(registry.select_node_at(13), Some("b:2".to_string()));
    registry.record_outcome_at("b:2", true, 14);
    assert_eq!(registry.select_node_at(15), Some("b:2".to_string()));
    let mut empty = TarsRegistry::new("Q").with_timeout(7);
    assert_eq!(empty.timeout(), 7);
    assert_eq!(empty.select_node(), None);
    assert!(empty.circuit_breaker().filter_available(&[]).is_empty());
}

#[test]
fn query_request_and_answer() {
    let registry = TarsRegistry::new("Q@tcp -h a -p 1");
    let req = registry.build_query("App.Srv.Obj", "findObjectById4All", None).unwrap();
    assert_eq!(req.s_servant_name, "tars.tarsregistry.QueryObj");
    assert_eq!(req.s_func_name, "findObjectById4All");
    assert_eq!(req.i_timeout, 5000);
    assert_eq!(req.s_buffer[0], 0x16);
    assert_eq!(req.s_buffer[1] as usize, "App.Srv.Obj".len());
    let req = registry.build_query("x", "findObjectByIdInSameSet", Some("s")).unwrap();
    assert_eq!(req.s_buffer, vec![0x16, 1, b'x', 0x26, 1, b's']);

    let mut body = Buffer::new();
    body.write_int32(0, 0).unwrap();
    body.write_list(1, 2).unwrap();
    let mut ep = EndpointF::empty();
    ep.host = "h".to_string();
    ep.port = 9;
    ep.istcp = 1;
    body.write_struct_begin(0).unwrap();
    ep.encode(&mut body).unwrap();
    body.write_struct_end().unwrap();
    let rsp = ResponsePacket::success(1, body.to_bytes());
    let (active, inactive) = TarsRegistry::read_answer(&rsp).unwrap();
    assert_eq!(active.len(), 1);
    assert_eq!(active[0].address(), "h:9");
    assert!(inactive.is_empty());

    let rsp = ResponsePacket::error(1, -5, "no");
    assert_eq!(
        TarsRegistry::read_answer(&rsp).err(),
        Some(TarsError::ServerError { code: -5, message: "no".to_string() })
    );
    let rsp = ResponsePacket::success(1, vec![]);
    assert!(matches!(TarsRegistry::read_answer(&rsp), Err(TarsError::Codec(_))));
}

#[test]
fn query_fails_over_to_the_next_node() {
    let mut registry = TarsRegistry::new("Q@tcp -h a -p 1:tcp -h b -p 2");
    let mut run = QueryRun::start(&registry);
    let first = match run.next(&mut registry, 0) {
        QueryStep::Ask(node) => node,
        QueryStep::GiveUp(e) => panic!("gave up: {:?}", e),
    };
    assert_eq!(first, "a:1");
    registry.record_outcome_at(&first, false, 0);
    run.failed(TarsError::Timeout(5000));
    let second = match run.next(&mut registry, 1) {
        QueryStep::Ask(node) => node,
        QueryStep::GiveUp(e) => panic!("gave up: {:?}", e),
    };
    assert_eq!(second, "b:2");
    registry.record_outcome_at(&second, false, 1);
    run.failed(TarsError::ConnectionClosed);
    match run.next(&mut registry, 2) {
        QueryStep::GiveUp(e) => assert_eq!(e, TarsError::ConnectionClosed),
        QueryStep::Ask(node) => panic!("asked {}", node),
    }
    let mut none = TarsRegistry::new("Q");
    let mut run = QueryRun::start(&none);
    assert!(matches!(run.next(&mut none, 0), QueryStep::GiveUp(TarsError::NoEndpoint)));
}

#[test]
fn endpoint_manager_keeps_what_the_registrar_reports() {
    let mut registrar = DirectRegistrar::new(vec![Endpoint::tcp("h", 1)]);
    assert!(registrar
        .register(&tars::endpoint::ServantInstance::new("a", "b", "c", Endpoint::tcp("h", 1)))
        .is_ok());
    let mut manager = EndpointManager::new("Obj").with_refresh_interval(5);
    assert_eq!(manager.refresh_interval_ms(), 5);
    assert!(manager.get_active().is_empty());
    manager.refresh(&mut registrar).unwrap();
    assert_eq!(manager.get_active().len(), 1);
    assert!(manager.get_inactive().is_empty());
    assert_eq!(manager.apply(Err(TarsError::NoEndpoint)), Err(TarsError::NoEndpoint));
    assert_eq!(manager.get_active().len(), 1);
}
