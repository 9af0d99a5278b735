use std::collections::HashSet;

use tars::endpoint::{Endpoint, WeightType};
use tars::error::TarsError;
use tars::selector::consistenthash::hash_key;
use tars::selector::weight::{build_weighted_list, find_weight_range, gcd};
use tars::selector::{
    build_static_weight_list, create_selector, AnySelector, ConsistentHash, DefaultMessage,
    HashType, Message, ModHash, Random, RoundRobin, Selector,
};

#[test]
fn test_hash_type() {
    assert_eq!(HashType::ModHash.as_str(), "ModHash");
    assert_eq!(HashType::ConsistentHash.as_str(), "ConsistentHash");
}

#[test]
fn test_default_message() {
    let msg = DefaultMessage::new();
    assert!(!msg.is_hash());

    let msg = DefaultMessage::with_hash(123, HashType::ModHash);
    assert!(msg.is_hash());
    assert_eq!(msg.hash_code(), 123);
}

#[test]
fn test_create_selector() {
    let _ = create_selector("roundrobin");
    let _ = create_selector("random");
    let _ = create_selector("modhash");
    let _ = create_selector("consistenthash");
    let _ = create_selector("unknown"); // Should default to roundrobin
}

#[test]
fn selector_names() {
    assert!(matches!(create_selector("roundrobin"), AnySelector::RoundRobin(_)));
    assert!(matches!(create_selector("RR"), AnySelector::RoundRobin(_)));
    assert!(matches!(create_selector("Random"), AnySelector::Random(_)));
    assert!(matches!(create_selector("MODHASH"), AnySelector::ModHash(_)));
    assert!(matches!(create_selector("ConsistentHash"), AnySelector::ConsistentHash(_)));
    assert!(matches!(create_selector("ch"), AnySelector::ConsistentHash(_)));
    assert!(matches!(create_selector(""), AnySelector::RoundRobin(_)));
    assert!(matches!(create_selector("rrr"), AnySelector::RoundRobin(_)));
    let mut any = create_selector("modhash");
    assert!(any.is_empty());
    any.refresh(vec![Endpoint::tcp("h", 1), Endpoint::tcp("h", 2)]);
    let msg = DefaultMessage::with_hash(3, HashType::ModHash);
    assert_eq!(any.select(&msg).unwrap().port, 2);
    assert_eq!(any.len(), 2);
    assert_eq!(any.all().len(), 2);
}

fn three_nodes() -> Vec<Endpoint> {
    vec![
        Endpoint::tcp("127.0.0.1", 10000),
        Endpoint::tcp("127.0.0.1", 10001),
        Endpoint::tcp("127.0.0.1", 10002),
    ]
}

#[test]
fn test_roundrobin_empty() {
    let mut selector = RoundRobin::new();
    let msg = DefaultMessage::new();
    assert!(selector.select(&msg).is_err());
}

#[test]
fn test_roundrobin_single() {
    let nodes = vec![Endpoint::tcp("127.0.0.1", 10000)];
    let mut selector = RoundRobin::with_nodes(nodes);
    let msg = DefaultMessage::new();

    let ep1 = selector.select(&msg).unwrap();
    let ep2 = selector.select(&msg).unwrap();
    assert_eq!(ep1.port, 10000);
    assert_eq!(ep2.port, 10000);
}

#[test]
fn test_roundrobin_multiple() {
    let mut selector = RoundRobin::with_nodes(three_nodes());
    let msg = DefaultMessage::new();

    let ports: Vec<u16> = (0..6).map(|_| selector.select(&msg).unwrap().port).collect();

    // Should cycle through in order
    assert_eq!(ports[0], ports[3]); // Same position in cycle
    assert_eq!(ports[1], ports[4]);
    assert_eq!(ports[2], ports[5]);
    assert_eq!(ports, vec![10000, 10001, 10002, 10000, 10001, 10002]);
}

#[test]
fn test_roundrobin_add_remove() {
    let mut selector = RoundRobin::new();

    let ep1 = Endpoint::tcp("127.0.0.1", 10000);
    let ep2 = Endpoint::tcp("127.0.0.1", 10001);

    selector.add(ep1.clone()).unwrap();
    selector.add(ep2.clone()).unwrap();
    assert_eq!(selector.len(), 2);

    selector.remove(&ep1).unwrap();
    assert_eq!(selector.len(), 1);
}

#[test]
fn test_roundrobin_refresh() {
    let nodes = vec![Endpoint::tcp("127.0.0.1", 10000)];
    let mut selector = RoundRobin::with_nodes(nodes);
    assert_eq!(selector.len(), 1);

    let new_nodes = vec![Endpoint::tcp("127.0.0.1", 10001), Endpoint::tcp("127.0.0.1", 10002)];
    selector.refresh(new_nodes);
    assert_eq!(selector.len(), 2);
}

#[test]
fn add_keeps_one_endpoint_per_place() {
    let mut selector = RoundRobin::new();
    selector.add(Endpoint::tcp("h", 1)).unwrap();
    let mut same_place = Endpoint::tcp("h", 1);
    same_place.weight = 3;
    selector.add(same_place).unwrap();
    selector.add(Endpoint::udp("h", 1)).unwrap();
    assert_eq!(selector.len(), 2);
    assert_eq!(selector.all()[0].weight, 100);
    selector.remove(&Endpoint::tcp("h", 2)).unwrap();
    assert_eq!(selector.len(), 2);
    selector.remove(&Endpoint::tcp("h", 1)).unwrap();
    assert_eq!(selector.all()[0].istcp, 0);
    assert!(!selector.is_empty());
}

#[test]
fn no_endpoint_is_the_error_of_an_empty_selector() {
    let msg = DefaultMessage::with_hash(1, HashType::ModHash);
    assert_eq!(RoundRobin::new().select(&msg).err(), Some(TarsError::NoEndpoint));
    assert_eq!(Random::new().select(&msg).err(), Some(TarsError::NoEndpoint));
    assert_eq!(ModHash::new().select(&msg).err(), Some(TarsError::NoEndpoint));
    assert_eq!(ConsistentHash::new().select(&msg).err(), Some(TarsError::NoEndpoint));
}

#[test]
fn test_random_empty() {
    let mut selector = Random::new();
    let msg = DefaultMessage::new();
    assert!(selector.select(&msg).is_err());
}

#[test]
fn test_random_single() {
    let nodes = vec![Endpoint::tcp("127.0.0.1", 10000)];
    let mut selector = Random::with_nodes(nodes);
    let msg = DefaultMessage::new();

    let ep = selector.select(&msg).unwrap();
    assert_eq!(ep.port, 10000);
}

#[test]
fn test_random_multiple() {
    let mut selector = Random::with_nodes(three_nodes());
    let msg = DefaultMessage::new();

    // Run multiple selections and verify we get different results
    let ports: HashSet<u16> = (0..100).map(|_| selector.select(&msg).unwrap().port).collect();

    // With 100 tries on 3 endpoints, we should get all 3
    assert!(ports.len() > 1);
    for port in ports {
        assert!((10000..=10002).contains(&port));
    }
}

#[test]
fn test_modhash_empty() {
    let mut selector = ModHash::new();
    let msg = DefaultMessage::with_hash(123, HashType::ModHash);
    assert!(selector.select(&msg).is_err());
}

#[test]
fn test_modhash_single() {
    let nodes = vec![Endpoint::tcp("127.0.0.1", 10000)];
    let mut selector = ModHash::with_nodes(nodes);
    let msg = DefaultMessage::with_hash(123, HashType::ModHash);

    let ep = selector.select(&msg).unwrap();
    assert_eq!(ep.port, 10000);
}

#[test]
fn test_modhash_consistent() {
    let mut selector = ModHash::with_nodes(three_nodes());
    let msg = DefaultMessage::with_hash(12345, HashType::ModHash);

    // Same hash should always select same endpoint
    let ep1 = selector.select(&msg).unwrap();
    let ep2 = selector.select(&msg).unwrap();
    assert_eq!(ep1.port, ep2.port);

    // Expected: 12345 % 3 = 0, so port 10000
    assert_eq!(ep1.port, 10000);
}

#[test]
fn test_modhash_distribution() {
    let mut selector = ModHash::with_nodes(three_nodes());

    let msg0 = DefaultMessage::with_hash(0, HashType::ModHash);
    let msg1 = DefaultMessage::with_hash(1, HashType::ModHash);
    let msg2 = DefaultMessage::with_hash(2, HashType::ModHash);

    assert_eq!(selector.select(&msg0).unwrap().port, 10000);
    assert_eq!(selector.select(&msg1).unwrap().port, 10001);
    assert_eq!(selector.select(&msg2).unwrap().port, 10002);
    let big = DefaultMessage::with_hash(u32::MAX, HashType::ModHash);
    assert_eq!(selector.select(&big).unwrap().port, 10000);
}

#[test]
fn test_consistenthash_empty() {
    let mut selector = ConsistentHash::new();
    let msg = DefaultMessage::with_hash(123, HashType::ConsistentHash);
    assert!(selector.select(&msg).is_err());
}

#[test]
fn test_consistenthash_single() {
    let nodes = vec![Endpoint::tcp("127.0.0.1", 10000)];
    let mut selector = ConsistentHash::with_nodes(nodes);
    let msg = DefaultMessage::with_hash(123, HashType::ConsistentHash);

    let ep = selector.select(&msg).unwrap();
    assert_eq!(ep.port, 10000);
}

#[test]
fn test_consistenthash_consistent() {
    let mut selector = ConsistentHash::with_nodes(three_nodes());
    let msg = DefaultMessage::with_hash(12345, HashType::ConsistentHash);

    // Same hash should always select same endpoint
    let ep1 = selector.select(&msg).unwrap();
    let ep2 = selector.select(&msg).unwrap();
    assert_eq!(ep1.port, ep2.port);
}

#[test]
fn test_consistenthash_distribution() {
    let mut selector = ConsistentHash::with_nodes(three_nodes());

    // Test multiple hash values
    let mut counts = std::collections::HashMap::new();
    for i in 0..1000 {
        let msg = DefaultMessage::with_hash(i, HashType::ConsistentHash);
        let ep = selector.select(&msg).unwrap();
        *counts.entry(ep.port).or_insert(0) += 1;
    }

    // Each node should get some requests (rough distribution)
    for (port, count) in counts {
        println!("Port {}: {} requests", port, count);
        assert!(count > 0);
    }
}

#[test]
fn test_consistenthash_minimal_disruption() {
    let nodes = three_nodes();
    let mut selector = ConsistentHash::with_nodes(nodes.clone());

    // Use well-distributed hash values (CRC32 of strings)
    let hash_values: Vec<u32> = (0..100)
        .map(|i| {
            let mut hasher = crc32fast::Hasher::new();
            hasher.update(format!("key_{}", i).as_bytes());
            hasher.finalize()
        })
        .collect();

    // Record initial selections
    let initial: Vec<_> = hash_values
        .iter()
        .map(|&h| {
            let msg = DefaultMessage::with_hash(h, HashType::ConsistentHash);
            selector.select(&msg).unwrap().port
        })
        .collect();

    // Add a new node
    selector.add(Endpoint::tcp("127.0.0.1", 10003)).unwrap();

    // Check how many selections changed
    let mut changed = 0;
    for (i, &h) in hash_values.iter().enumerate() {
        let msg = DefaultMessage::with_hash(h, HashType::ConsistentHash);
        let new_port = selector.select(&msg).unwrap().port;
        if new_port != initial[i] {
            changed += 1;
            // a hash code that moves, moves to the endpoint that joined
            assert_eq!(new_port, 10003);
        }
    }

    // With consistent hashing, only ~25% should change (1/4 of requests)
    println!("Changed: {}/100", changed);
    assert!(changed < 50, "Too many changes: {}", changed);
}

#[test]
fn consistent_hash_keys_are_crc32_of_address_and_index() {
    assert_eq!(hash_key("127.0.0.1:10000", 0), crc32fast::hash(b"127.0.0.1:10000#0"));
    assert_eq!(hash_key("h:1", 99), crc32fast::hash(b"h:1#99"));
    assert_eq!(crc32fast::hash(b"123456789"), 0xCBF43926);
    // the ring sends a hash code that is a key to the endpoint of the key
    let mut selector = ConsistentHash::with_nodes(vec![Endpoint::tcp("a", 1), Endpoint::tcp("b", 2)]);
    for i in 0..100 {
        let key = hash_key("b:2", i);
        let msg = DefaultMessage::with_hash(key, HashType::ConsistentHash);
        let picked = selector.select(&msg).unwrap();
        let collides = (0..100).any(|j| hash_key("a:1", j) == key);
        if !collides {
            assert_eq!(picked.port, 2);
        }
    }
    selector.remove(&Endpoint::tcp("b", 2)).unwrap();
    let msg = DefaultMessage::with_hash(hash_key("b:2", 5), HashType::ConsistentHash);
    assert_eq!(selector.select(&msg).unwrap().port, 1);
    selector.refresh(vec![]);
    assert!(selector.select(&msg).is_err());
}

fn make_weighted_endpoint(port: u16, weight: u32) -> Endpoint {
    Endpoint {
        host: "127.0.0.1".to_string(),
        port,
        weight,
        weight_type: WeightType::StaticWeight.as_i16(),
        ..Default::default()
    }
}

#[test]
fn test_gcd() {
    assert_eq!(gcd(12, 8), 4);
    assert_eq!(gcd(100, 25), 25);
    assert_eq!(gcd(7, 3), 1);
}

#[test]
fn test_build_weight_list_empty() {
    assert!(build_static_weight_list(&[]).is_none());
}

#[test]
fn test_build_weight_list_non_static() {
    let endpoints = vec![Endpoint::tcp("127.0.0.1", 10000)];
    assert!(build_static_weight_list(&endpoints).is_none());
}

#[test]
fn test_build_weight_list_equal_weights() {
    let endpoints = vec![
        make_weighted_endpoint(10000, 100),
        make_weighted_endpoint(10001, 100),
        make_weighted_endpoint(10002, 100),
    ];

    let list = build_static_weight_list(&endpoints).unwrap();

    // Count occurrences - should be roughly equal
    let counts: std::collections::HashMap<_, _> =
        list.iter().fold(std::collections::HashMap::new(), |mut acc, &idx| {
            *acc.entry(idx).or_insert(0) += 1;
            acc
        });

    for count in counts.values() {
        assert!(*count > 0);
    }
    assert_eq!(list, vec![2, 1, 0]);
}

#[test]
fn test_build_weight_list_different_weights() {
    let endpoints = vec![make_weighted_endpoint(10000, 100), make_weighted_endpoint(10001, 200)];

    let list = build_static_weight_list(&endpoints).unwrap();

    // Count occurrences
    let count_0 = list.iter().filter(|&&idx| idx == 0).count();
    let count_1 = list.iter().filter(|&&idx| idx == 1).count();

    // Endpoint 1 should have roughly 2x the selections
    println!("Count 0: {}, Count 1: {}", count_0, count_1);
    assert!(count_1 > count_0);
    assert_eq!((count_0, count_1), (1, 2));
}

#[test]
fn test_weight_distribution() {
    let endpoints = vec![
        make_weighted_endpoint(10000, 10),
        make_weighted_endpoint(10001, 30),
        make_weighted_endpoint(10002, 60),
    ];

    let list = build_static_weight_list(&endpoints).unwrap();

    let counts: Vec<usize> =
        (0..3).map(|i| list.iter().filter(|&&idx| idx == i).count()).collect();

    println!("Distribution: {:?}", counts);

    // Weights are 10:30:60 = 1:3:6
    // So distribution should roughly follow this ratio
    assert!(counts[2] > counts[1]);
    assert!(counts[1] > counts[0]);
    assert_eq!(counts, vec![1, 5, 10]);
}

#[test]
fn weighted_list_is_smooth() {
    // weights 5, 1, 1: the heavy index is spread out, not in one burst
    let list = build_weighted_list(&[5, 1, 1]).unwrap();
    assert_eq!(list, vec![0, 0, 2, 0, 1, 0, 0]);
    // the weights are divided by their greatest common divisor first
    let list = build_weighted_list(&[4, 2]).unwrap();
    assert_eq!(list, vec![0, 1, 0]);
    // of equal current weights the last index is selected
    let list = build_weighted_list(&[1, 1]).unwrap();
    assert_eq!(list, vec![1, 0]);
    assert!(build_weighted_list(&[]).is_none());
    assert_eq!(gcd(0, 9), 9);
    assert_eq!(gcd(9, 0), 9);
}

#[test]
fn weight_range_and_normalization() {
    let endpoints = vec![make_weighted_endpoint(1, 0), make_weighted_endpoint(2, 7)];
    assert_eq!(find_weight_range(&endpoints), Some((1, 7)));
    assert_eq!(find_weight_range(&[]), None);
    // ratio 1000 is cut to 100: weights 1 and 1000 become 1 and 100
    let endpoints = vec![make_weighted_endpoint(1, 1), make_weighted_endpoint(2, 1000)];
    let list = build_static_weight_list(&endpoints).unwrap();
    assert_eq!(list.len(), 101);
    assert_eq!(list.iter().filter(|&&i| i == 0).count(), 1);
    // ratio 2 is raised to 10: weights 100 and 200 become 5 and 10
    let endpoints = vec![make_weighted_endpoint(1, 100), make_weighted_endpoint(2, 200)];
    let list = build_static_weight_list(&endpoints).unwrap();
    assert_eq!(list, vec![1, 0, 1]);
}

#[test]
fn interleaved_select_and_refresh_stay_within_the_snapshots() {
    let snapshots: Vec<Vec<Endpoint>> = vec![
        vec![Endpoint::tcp("a", 1), Endpoint::tcp("a", 2), Endpoint::tcp("a", 3)],
        vec![Endpoint::tcp("b", 1)],
        vec![Endpoint::tcp("c", 1), Endpoint::tcp("c", 2)],
    ];
    for name in ["roundrobin", "random", "modhash", "consistenthash"] {
        let mut selector = create_selector(name);
        let mut current = 0usize;
        selector.refresh(snapshots[current].clone());
        for step in 0..100_000u32 {
            if step % 7 == 0 {
                current = (current + 1) % snapshots.len();
                selector.refresh(snapshots[current].clone());
            }
            let msg = DefaultMessage::with_hash(step.wrapping_mul(2654435761), HashType::ModHash);
            let picked = selector.select(&msg).unwrap();
            assert!(snapshots[current].contains(&picked));
        }
    }
}

#[test]
fn heavy_endpoints_are_interleaved_not_bunched() {
    let endpoints = vec![make_weighted_endpoint(10000, 100), make_weighted_endpoint(10001, 200)];
    assert_eq!(build_static_weight_list(&endpoints), Some(vec![1, 0, 1]));
    // the same proportion on another scale gives the same list
    let endpoints = vec![make_weighted_endpoint(1, 1_000_000), make_weighted_endpoint(2, 500_000)];
    assert_eq!(build_static_weight_list(&endpoints), Some(vec![0, 1, 0]));
    // weights far apart meet at the greatest range of 100
    let endpoints = vec![make_weighted_endpoint(1, 1), make_weighted_endpoint(2, 1_000_000)];
    let list = build_static_weight_list(&endpoints).unwrap();
    assert_eq!(list.len(), 101);
    assert_eq!(list.iter().filter(|&&i| i == 0).count(), 1);
    assert!(list.iter().all(|&i| i < 2));
}
