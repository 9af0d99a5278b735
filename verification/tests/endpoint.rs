use tars::endpoint::{Endpoint, ServantInstance, WeightType};
use tars::protocol::TransportProtocol;

#[test]
fn test_endpoint_new() {
    let ep = Endpoint::new("127.0.0.1", 10000);
    assert_eq!(ep.host, "127.0.0.1");
    assert_eq!(ep.port, 10000);
    assert!(ep.is_tcp());
}

#[test]
fn test_endpoint_protocols() {
    let tcp = Endpoint::tcp("127.0.0.1", 10000);
    assert!(tcp.is_tcp());
    assert!(!tcp.is_udp());
    assert!(!tcp.is_ssl());

    let udp = Endpoint::udp("127.0.0.1", 10000);
    assert!(!udp.is_tcp());
    assert!(udp.is_udp());

    let ssl = Endpoint::ssl("127.0.0.1", 10000);
    assert!(!ssl.is_tcp());
    assert!(ssl.is_ssl());
}

#[test]
fn test_endpoint_equality() {
    let ep1 = Endpoint::tcp("127.0.0.1", 10000);
    let ep2 = Endpoint::tcp("127.0.0.1", 10000);
    let ep3 = Endpoint::tcp("127.0.0.1", 10001);

    assert_eq!(ep1, ep2);
    assert_ne!(ep1, ep3);
}

#[test]
fn test_endpoint_string() {
    let ep = Endpoint::tcp("127.0.0.1", 10000);
    let s = ep.to_endpoint_string();
    assert!(s.contains("tcp"));
    assert!(s.contains("127.0.0.1"));
    assert!(s.contains("10000"));
}

#[test]
fn test_endpoint_address() {
    let ep = Endpoint::tcp("127.0.0.1", 10000);
    assert_eq!(ep.address(), "127.0.0.1:10000");
}

#[test]
fn test_servant_instance() {
    let ep = Endpoint::tcp("127.0.0.1", 10000);
    let instance = ServantInstance::new("Test", "HelloServer", "HelloObj", ep);
    assert_eq!(instance.object_name(), "Test.HelloServer.HelloObj");
}

#[test]
fn endpoint_string_is_exact() {
    let mut ep = Endpoint::udp("host", 0);
    ep.timeout = 12345678901234;
    assert_eq!(ep.to_endpoint_string(), "udp -h host -p 0 -t 12345678901234");
    assert_eq!(ep.address(), "host:0");
    let ep = Endpoint::ssl("h", 65535);
    assert_eq!(ep.to_endpoint_string(), "ssl -h h -p 65535 -t 3000");
    // an unknown transport number counts as tcp
    let mut ep = Endpoint::new("h", 1);
    ep.istcp = 77;
    assert_eq!(ep.protocol(), TransportProtocol::Tcp);
    assert_eq!(ep.to_endpoint_string(), "tcp -h h -p 1 -t 3000");
}

#[test]
fn endpoint_defaults_and_equality_by_place() {
    let ep = Endpoint::new("h", 1);
    assert_eq!(ep.timeout, 3000);
    assert_eq!(ep.weight, 100);
    assert_eq!(ep.get_weight_type(), WeightType::Loop);
    assert!(!ep.is_static_weight());
    let mut other = Endpoint::new("h", 1);
    other.weight = 5;
    other.timeout = 1;
    other.set_id = "x".to_string();
    assert_eq!(ep, other);
    assert_ne!(ep, Endpoint::udp("h", 1));
    assert_ne!(ep, Endpoint::new("g", 1));
    let copy = other.clone();
    assert_eq!(copy.weight, 5);
    assert_eq!(copy.set_id, "x");
    let zero = Endpoint::default();
    assert_eq!(zero.host, "");
    assert_eq!(zero.weight, 0);
}

#[test]
fn weight_types() {
    assert_eq!(WeightType::from_i16(0), Some(WeightType::Loop));
    assert_eq!(WeightType::from_i16(1), Some(WeightType::StaticWeight));
    assert_eq!(WeightType::from_i16(2), None);
    assert_eq!(WeightType::StaticWeight.as_i16(), 1);
    let mut ep = Endpoint::new("h", 1);
    ep.weight_type = 1;
    assert!(ep.is_static_weight());
    ep.weight_type = 9;
    assert_eq!(ep.get_weight_type(), WeightType::Loop);
}

#[test]
fn endpoint_from_string() {
    let ep = Endpoint::from_string("ssl -h example.org -p 443 -t 10").unwrap();
    assert!(ep.is_ssl());
    assert_eq!(ep.host, "example.org");
    assert_eq!(ep.port, 443);
    assert_eq!(ep.timeout, 10);
    assert!(Endpoint::from_string("http -h a -p 1").is_none());
}

#[test]
fn servant_instance_defaults() {
    let instance = ServantInstance::new("A", "B", "C", Endpoint::tcp("h", 1));
    assert_eq!(instance.tars_version, "1.0.0");
    assert_eq!(instance.protocol, "tars");
    assert!(!instance.enable_set);
    assert_eq!(instance.endpoint.port, 1);
}
