use c19::connection::peer_provider::k8s::{K8s, PodEvent, Scope};
use c19::connection::peer_provider::static_peer_provider::Static;
use c19::connection::peer_provider::{parse_address, parse_peer, Ipv4, Peer, PeerProvider};

fn ip(a: u8, b: u8, c: u8, d: u8) -> Ipv4 {
    Ipv4 { a, b, c, d }
}

#[test]
fn peer_from_a_bare_address() {
    assert_eq!(Peer::from_str("127.0.0.1"), Ok(Peer::Address(ip(127, 0, 0, 1))));
    assert_eq!(Peer::from_str("0.0.0.0"), Ok(Peer::Address(ip(0, 0, 0, 0))));
    assert_eq!(Peer::from_str("255.255.255.255"), Ok(Peer::Address(ip(255, 255, 255, 255))));
    assert_eq!(Peer::from_str("10.20.30.40"), Ok(Peer::Address(ip(10, 20, 30, 40))));
}

#[test]
fn peer_from_an_address_with_a_port() {
    assert_eq!(Peer::from_str("127.0.0.1:4097"), Ok(Peer::Endpoint(ip(127, 0, 0, 1), 4097)));
    assert_eq!(Peer::from_str("1.2.3.4:0"), Ok(Peer::Endpoint(ip(1, 2, 3, 4), 0)));
    assert_eq!(Peer::from_str("1.2.3.4:65535"), Ok(Peer::Endpoint(ip(1, 2, 3, 4), 65535)));
    assert_eq!(Peer::from_str("1.2.3.4:080"), Ok(Peer::Endpoint(ip(1, 2, 3, 4), 80)));
}

#[test]
fn peer_from_anything_else_fails() {
    for text in [
        "", "1", "1.2.3", "1.2.3.", "1.2.3.4.", "1.2.3.4.5", ".1.2.3.4", "1..2.3", "256.1.1.1",
        "1.2.3.256", "01.2.3.4", "1.2.3.04", "00.0.0.0", "1.2.3.1000", "1.2.3.4:", "1.2.3.4:65536",
        "1.2.3.4:99999999999999999999", "1.2.3.4:-1", "1.2.3.4:80 ", " 1.2.3.4", "1.2.3.4:8a",
        "a.b.c.d", "1.2.3.4/8", "localhost", "::1", "1.2.3.4:80:90", "1,2,3,4", "１.2.3.4",
    ] {
        assert!(Peer::from_str(text).is_err(), "{}", text);
        assert_eq!(parse_peer(text.as_bytes()), None, "{}", text);
    }
}

#[test]
fn peer_parsing_of_odd_ports_and_octets() {
    assert_eq!(parse_peer(b"0.0.0.0:00000"), Some(Peer::Endpoint(ip(0, 0, 0, 0), 0)));
    assert_eq!(
        parse_peer(b"1.2.3.4:0000000000000000000080"),
        Some(Peer::Endpoint(ip(1, 2, 3, 4), 80))
    );
    assert_eq!(parse_peer(b"255.255.255.255:1"), Some(Peer::Endpoint(ip(255, 255, 255, 255), 1)));
    assert_eq!(parse_peer(b"192.168.1.300"), None);
    assert_eq!(parse_peer(b"1.2.3.4:0000000000000000065536"), None);
    assert_eq!(parse_peer(b"199.9.99.0"), Some(Peer::Address(ip(199, 9, 99, 0))));
}

#[test]
fn address_alone_takes_no_port() {
    assert_eq!(parse_address(b"10.0.0.7"), Some(ip(10, 0, 0, 7)));
    assert_eq!(parse_address(b"10.0.0.7:80"), None);
    assert_eq!(parse_address(b"10.0.0"), None);
}

#[test]
fn peer_accessors() {
    let bare = Peer::Address(ip(1, 2, 3, 4));
    let full = Peer::Endpoint(ip(5, 6, 7, 8), 9);
    assert_eq!(*bare.ip(), ip(1, 2, 3, 4));
    assert_eq!(bare.port(), None);
    assert_eq!(*full.ip(), ip(5, 6, 7, 8));
    assert_eq!(full.port(), Some(9));
}

#[test]
fn static_provider_returns_its_list() {
    let peers = vec![Peer::Address(ip(1, 2, 3, 4)), Peer::Endpoint(ip(5, 6, 7, 8), 9)];
    let provider = Static { peers: peers.clone() };
    assert!(provider.init().is_ok());
    assert_eq!(provider.get(), peers);
    assert_eq!(Static { peers: Vec::new() }.get(), Vec::new());
}

#[test]
fn k8s_selector_joins_the_labels() {
    let none = K8s::new(Vec::new(), "default".to_string());
    assert_eq!(none.selector(), "");
    let one = K8s::new(vec![("c19".to_string(), "example".to_string())], "default".to_string());
    assert_eq!(one.selector(), "c19=example");
    let two = K8s::new(
        vec![("app".to_string(), "web".to_string()), ("tier".to_string(), "front".to_string())],
        "default".to_string(),
    );
    assert_eq!(two.selector(), "app=web,tier=front");
}

#[test]
fn k8s_scope_by_namespace() {
    assert!(matches!(K8s::new(Vec::new(), ":all".to_string()).scope(), Scope::All));
    match K8s::new(Vec::new(), "prod".to_string()).scope() {
        Scope::Namespaced(name) => assert_eq!(name, "prod"),
        Scope::All => panic!("one namespace was named"),
    }
    let by_default: K8s = Default::default();
    match by_default.scope() {
        Scope::Namespaced(name) => assert_eq!(name, "default"),
        Scope::All => panic!("the default is one namespace"),
    }
    assert_eq!(by_default.selector(), "");
    assert_eq!(by_default.get(), Vec::new());
}

#[test]
fn k8s_pod_address_must_be_ipv4() {
    assert_eq!(K8s::ip(&Some("10.1.2.3".to_string())), Some(Peer::Address(ip(10, 1, 2, 3))));
    assert_eq!(K8s::ip(&Some("10.1.2.3:80".to_string())), None);
    assert_eq!(K8s::ip(&Some("fe80::1".to_string())), None);
    assert_eq!(K8s::ip(&Some("".to_string())), None);
    assert_eq!(K8s::ip(&None), None);
}

#[test]
fn k8s_events_maintain_the_table() {
    let mut k = K8s::new(Vec::new(), "default".to_string());
    assert!(k.init().is_ok());
    assert_eq!(k.get(), Vec::new());
    assert!(k.apply(PodEvent::Added { uid: "a".to_string(), pod_ip: Some("10.0.0.1".to_string()) }));
    assert!(k.apply(PodEvent::Added { uid: "b".to_string(), pod_ip: Some("10.0.0.2".to_string()) }));
    assert!(k.apply(PodEvent::Added { uid: "c".to_string(), pod_ip: None }));
    assert_eq!(k.get(), vec![Peer::Address(ip(10, 0, 0, 1)), Peer::Address(ip(10, 0, 0, 2))]);
    assert!(k.apply(PodEvent::Modified { uid: "a".to_string(), pod_ip: Some("10.0.0.9".to_string()) }));
    assert_eq!(k.get(), vec![Peer::Address(ip(10, 0, 0, 9)), Peer::Address(ip(10, 0, 0, 2))]);
    // An address that cannot be read leaves the pod as it was.
    assert!(k.apply(PodEvent::Modified { uid: "b".to_string(), pod_ip: Some("nowhere".to_string()) }));
    assert_eq!(k.get(), vec![Peer::Address(ip(10, 0, 0, 9)), Peer::Address(ip(10, 0, 0, 2))]);
    assert!(!k.apply(PodEvent::Other));
    assert!(k.apply(PodEvent::Deleted { uid: "zzz".to_string() }));
    assert_eq!(k.get().len(), 2);
    assert!(k.apply(PodEvent::Deleted { uid: "a".to_string() }));
    assert_eq!(k.get(), vec![Peer::Address(ip(10, 0, 0, 2))]);
    assert!(k.apply(PodEvent::Deleted { uid: "b".to_string() }));
    assert_eq!(k.get(), Vec::new());
}

#[test]
fn k8s_upsert_and_remove() {
    let mut k = K8s::new(Vec::new(), "default".to_string());
    k.upsert("a".to_string(), Peer::Address(ip(1, 1, 1, 1)));
    k.upsert("a".to_string(), Peer::Address(ip(2, 2, 2, 2)));
    assert_eq!(k.get(), vec![Peer::Address(ip(2, 2, 2, 2))]);
    k.remove(&"a".to_string());
    k.remove(&"a".to_string());
    assert_eq!(k.get(), Vec::new());
}

#[test]
fn peer_written_in_the_usual_form_reads_back() {
    for (a, b, c, d, port) in [
        (0u8, 0u8, 0u8, 0u8, 0u16),
        (1, 2, 3, 4, 80),
        (10, 100, 200, 255, 65535),
        (255, 255, 255, 255, 4097),
        (9, 99, 199, 0, 10),
    ] {
        let bare = format!("{}.{}.{}.{}", a, b, c, d);
        assert_eq!(Peer::from_str(&bare), Ok(Peer::Address(ip(a, b, c, d))));
        let full = format!("{}.{}.{}.{}:{}", a, b, c, d, port);
        assert_eq!(Peer::from_str(&full), Ok(Peer::Endpoint(ip(a, b, c, d), port)));
    }
}
