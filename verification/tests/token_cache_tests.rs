use udp_director::config::Protocol;
use udp_director::port_map::PortMap;
use udp_director::token_cache::{AddrError, TokenCache, TokenTarget};

#[test]
fn test_token_generation_and_lookup() {
    let mut cache = TokenCache::new(60);
    let target = TokenTarget::single_port("10.0.0.1".to_string(), 7777);

    let token = cache.generate_token(target.clone(), 0);
    assert!(!token.is_empty());

    let retrieved = cache.lookup(&token, 0);
    assert!(retrieved.is_some());

    let retrieved_target = retrieved.unwrap();
    assert_eq!(retrieved_target.cluster_ip, "10.0.0.1");
    assert_eq!(retrieved_target.port_mappings.len(), 1);
}

#[test]
fn test_token_ttl() {
    let mut cache = TokenCache::new(1);
    let target = TokenTarget::single_port("10.0.0.1".to_string(), 7777);

    let token = cache.generate_token(target, 0);
    assert!(cache.lookup(&token, 0).is_some());

    assert!(cache.lookup(&token, 2).is_none());
}

#[test]
fn tokens_are_hyphenated_identifiers() {
    let mut cache = TokenCache::new(60);
    let token = cache.generate_token(TokenTarget::single_port("10.0.0.1".to_string(), 1), 0);
    assert_eq!(token.len(), 36);
    assert_eq!(token.chars().count(), 36);
    for (i, c) in token.chars().enumerate() {
        if i == 8 || i == 13 || i == 18 || i == 23 {
            assert_eq!(c, '-');
        } else {
            assert!(c.is_ascii_hexdigit());
        }
    }
}

#[test]
fn minted_tokens_differ_and_keep_their_targets() {
    let mut cache = TokenCache::new(60);
    let mut tokens = Vec::new();
    for i in 0..50u16 {
        let token = cache.generate_token(TokenTarget::single_port(format!("10.0.0.{}", i), i), 0);
        assert!(!tokens.contains(&token));
        tokens.push(token);
    }
    for (i, token) in tokens.iter().enumerate() {
        assert_eq!(cache.lookup(token, 10).unwrap().cluster_ip, format!("10.0.0.{}", i));
    }
}

#[test]
fn a_token_expires_exactly_at_its_lifetime() {
    let mut cache = TokenCache::new(30);
    cache.store("t".to_string(), TokenTarget::single_port("10.0.0.1".to_string(), 1), 100);
    assert!(cache.lookup("t", 100).is_some());
    assert!(cache.lookup("t", 129).is_some());
    assert!(cache.lookup("t", 130).is_none());
    assert!(cache.lookup("t", 131).is_none());
    assert!(cache.lookup("t", u64::MAX).is_none());
    // a clock that is behind the minting still finds the token
    assert!(cache.lookup("t", 50).is_some());
    assert!(cache.lookup("other", 100).is_none());
    assert!(cache.lookup("", 100).is_none());
}

#[test]
fn a_lifetime_of_zero_expires_at_once() {
    let mut cache = TokenCache::new(0);
    cache.store("t".to_string(), TokenTarget::single_port("10.0.0.1".to_string(), 1), 5);
    assert!(cache.lookup("t", 5).is_none());
}

#[test]
fn storing_replaces_and_purges() {
    let mut cache = TokenCache::new(10);
    cache.store("a".to_string(), TokenTarget::single_port("10.0.0.1".to_string(), 1), 0);
    cache.store("b".to_string(), TokenTarget::single_port("10.0.0.2".to_string(), 2), 5);
    cache.store("a".to_string(), TokenTarget::single_port("10.0.0.3".to_string(), 3), 6);
    assert_eq!(cache.lookup("a", 6).unwrap().cluster_ip, "10.0.0.3");
    assert_eq!(cache.lookup("b", 6).unwrap().cluster_ip, "10.0.0.2");
    // at 15 the lifetime of b has passed: storing c drops it
    cache.store("c".to_string(), TokenTarget::single_port("10.0.0.4".to_string(), 4), 15);
    assert_eq!(cache.lookup("a", 15).unwrap().cluster_ip, "10.0.0.3");
    assert!(cache.lookup("b", 15).is_none());
    assert!(cache.lookup("b", 6).is_none());
    assert_eq!(cache.lookup("c", 15).unwrap().cluster_ip, "10.0.0.4");
}

#[test]
fn lookup_by_bytes() {
    let mut cache = TokenCache::new(10);
    cache.store("tökén".to_string(), TokenTarget::single_port("10.0.0.1".to_string(), 1), 0);
    cache.store("plain".to_string(), TokenTarget::single_port("10.0.0.2".to_string(), 2), 0);
    assert_eq!(cache.lookup_bytes(&"plain".as_bytes().to_vec(), 1).unwrap().cluster_ip, "10.0.0.2");
    assert_eq!(cache.lookup_bytes(&"tökén".as_bytes().to_vec(), 1).unwrap().cluster_ip, "10.0.0.1");
    assert!(cache.lookup_bytes(&"plain".as_bytes().to_vec(), 10).is_none());
    assert!(cache.lookup_bytes(&"plai".as_bytes().to_vec(), 1).is_none());
    assert!(cache.lookup_bytes(&vec![0xff, 0xfe], 1).is_none());
    assert!(cache.lookup_bytes(&Vec::new(), 1).is_none());
}

#[test]
fn single_and_multi_port_targets() {
    let single = TokenTarget::single_port("10.0.0.1".to_string(), 7777);
    assert_eq!(single.port_mappings.get(7777, Protocol::Udp), Some(7777));
    assert_eq!(single.port_mappings.get(7777, Protocol::Tcp), None);
    let addr = single.to_socket_addr().unwrap();
    assert_eq!((addr.ip.as_str(), addr.port), ("10.0.0.1", 7777));
    let addr = single.to_socket_addr_for_port(7777, Protocol::Udp).unwrap();
    assert_eq!((addr.ip.as_str(), addr.port), ("10.0.0.1", 7777));
    assert_eq!(
        single.to_socket_addr_for_port(7778, Protocol::Udp).err(),
        Some(AddrError::NoPortMapping { proxy_port: 7778, protocol: Protocol::Udp })
    );

    let mut map = PortMap::new();
    map.insert(7777, Protocol::Udp, 1);
    map.insert(7777, Protocol::Tcp, 2);
    map.insert(7777, Protocol::Udp, 3);
    assert_eq!(map.len(), 2);
    assert!(map.contains_key(7777, Protocol::Tcp));
    assert!(!map.contains_key(7778, Protocol::Tcp));
    assert_eq!(map.entries().len(), 2);
    let multi = TokenTarget::multi_port("10.0.0.2".to_string(), map);
    assert_eq!(multi.to_socket_addr_for_port(7777, Protocol::Udp).unwrap().port, 3);
    assert_eq!(multi.to_socket_addr_for_port(7777, Protocol::Tcp).unwrap().port, 2);
    let any = multi.to_socket_addr().unwrap();
    assert!(any.port == 3 || any.port == 2);

    let empty = TokenTarget::multi_port("10.0.0.3".to_string(), PortMap::new());
    assert_eq!(empty.to_socket_addr().err(), Some(AddrError::NoPortMappings));
    assert_eq!(AddrError::NoPortMappings.message(), "No port mappings available");
}
