use l4p::config::{BaseConfig, ConfigV1, ServerConfig, ViaUpstream};
use l4p::listener::{AcceptAction, AcceptEvent, AcceptLoop, Next, Phase};
use l4p::resolver::SocketAddress;
use l4p::server::{copy_pairs, copy_via, find_address, Handling, Proxy, Server};
use l4p::upstream::{ProxyToUpstream, Upstream};

fn local(port: u16) -> SocketAddress {
    SocketAddress::V4 { ip: 0x7f00_0001, port }
}

fn entry(listen: &[&str], default: Option<&str>) -> ServerConfig {
    ServerConfig {
        listen: listen.iter().map(|s| s.to_string()).collect(),
        protocol: None,
        tls: None,
        sni: None,
        default: default.map(|s| s.to_string()),
        via: ViaUpstream::default(),
        maxclients: 4,
    }
}

fn scenario() -> BaseConfig {
    let mut tls = entry(&["127.0.0.1:4443", "bogus", "127.0.0.1:4444"], None);
    tls.tls = Some(true);
    tls.protocol = Some("tcp4".to_string());
    tls.sni = Some(vec![
        ("a.example".to_string(), "upA".to_string()),
        ("b.example".to_string(), "upB".to_string()),
    ]);
    tls.via = ViaUpstream {
        headers: vec![("X-Auth".to_string(), "Bearer ${TOKEN}".to_string())],
        target: "host:443".to_string(),
        connect_timeout: 2500,
    };
    BaseConfig {
        version: 1,
        log: None,
        servers: vec![
            ("plain".to_string(), entry(&["127.0.0.1:54500"], Some("up1"))),
            ("echo".to_string(), entry(&["127.0.0.1:54956"], Some("echo"))),
            ("tls".to_string(), tls),
        ],
        upstream: vec![
            ("up1".to_string(), "tcp://127.0.0.1:54599".to_string()),
            ("upA".to_string(), "tcp://10.0.0.1:443".to_string()),
            ("upB".to_string(), "tcp://10.0.0.2:443".to_string()),
        ],
        via: ViaUpstream::default(),
    }
}

fn listens() -> Vec<(String, SocketAddress)> {
    vec![
        ("127.0.0.1:54500".to_string(), local(54500)),
        ("127.0.0.1:54956".to_string(), local(54956)),
        ("127.0.0.1:4443".to_string(), local(4443)),
        ("127.0.0.1:4444".to_string(), local(4444)),
    ]
}

fn built() -> Server {
    let config = ConfigV1::new(scenario()).unwrap();
    Server::new_from_v1_config(config.base, &listens())
}

fn tls_hello(name: &str) -> Vec<u8> {
    let l = name.len();
    let mut exts: Vec<u8> = vec![0, 0, 0, (l + 5) as u8, 0, (l + 3) as u8, 0, 0, l as u8];
    exts.extend_from_slice(name.as_bytes());
    let mut body: Vec<u8> = vec![3, 3];
    body.extend_from_slice(&[1u8; 32]);
    body.extend_from_slice(&[0, 0, 2, 0x13, 0x01, 1, 0]);
    body.push(0);
    body.push(exts.len() as u8);
    body.extend_from_slice(&exts);
    let mut rec: Vec<u8> = vec![22, 3, 1, 0, (body.len() + 4) as u8, 1, 0, 0, body.len() as u8];
    rec.extend_from_slice(&body);
    rec
}

#[test]
fn server_has_one_listener_per_listen_address() {
    let server = built();
    assert_eq!(server.proxies.len(), 4);
    let names: Vec<&str> = server.proxies.iter().map(|p| p.name.as_str()).collect();
    assert_eq!(names, vec!["plain", "echo", "tls", "tls"]);
    let ports: Vec<SocketAddress> = server.proxies.iter().map(|p| p.listen).collect();
    assert_eq!(ports, vec![local(54500), local(54956), local(4443), local(4444)]);
    assert_eq!(server.upstream.len(), 6);
}

#[test]
fn listener_takes_over_the_server_entry() {
    let server = built();
    let plain = &server.proxies[0];
    assert_eq!(plain.protocol, "tcp");
    assert!(!plain.tls);
    assert_eq!(plain.sni, None);
    assert_eq!(plain.default_action, "up1");
    assert_eq!(plain.maxclients, 4);
    assert_eq!(plain.via.target, "");
    let tls = &server.proxies[3];
    assert_eq!(tls.protocol, "tcp4");
    assert!(tls.tls);
    assert_eq!(tls.default_action, "ban");
    assert_eq!(
        tls.sni,
        Some(vec![
            ("a.example".to_string(), "upA".to_string()),
            ("b.example".to_string(), "upB".to_string()),
        ])
    );
    assert_eq!(tls.via.target, "host:443");
    assert_eq!(tls.via.headers, vec![("X-Auth".to_string(), "Bearer ${TOKEN}".to_string())]);
    assert_eq!(tls.via.connect_timeout, 2500);
}

#[test]
fn plain_tcp_proxy_scenario() {
    let server = built();
    let at = server.proxies[0].accept(&server.upstream, b"hi").unwrap().at;
    assert_eq!(server.upstream[at].0, "up1");
    match &server.upstream[at].1 {
        Upstream::Proxy(p) => assert_eq!(p.addr, "127.0.0.1:54599"),
        _ => panic!("up1 is a proxied upstream"),
    }
    assert_eq!(server.upstream[at].1.process(""), Handling::Relay { chained: false });
}

#[test]
fn echo_scenario() {
    let server = built();
    for i in 0..=10u8 {
        let at = server.proxies[1].accept(&server.upstream, &[i]).unwrap().at;
        assert_eq!(server.upstream[at].1.process(""), Handling::Echo);
    }
}

#[test]
fn ban_scenario() {
    let server = built();
    let tls = &server.proxies[2];
    for peeked in [&b""[..], b"anything", &tls_hello("c.example")] {
        let at = tls.accept(&server.upstream, peeked).unwrap().at;
        assert_eq!(server.upstream[at].0, "ban");
        assert_eq!(server.upstream[at].1.process(&tls.via.target), Handling::Shutdown);
    }
}

#[test]
fn tls_listener_dispatches_by_server_name() {
    let server = built();
    let tls = &server.proxies[2];
    assert_eq!(tls.route(&tls_hello("b.example")), "upB");
    assert_eq!(tls.route(&tls_hello("A.EXAMPLE")), "upA");
    let found = tls.accept(&server.upstream, &tls_hello("b.example")).unwrap();
    assert!(!found.fallback);
    let at = found.at;
    match &server.upstream[at].1 {
        Upstream::Proxy(p) => assert_eq!(p.addr, "10.0.0.2:443"),
        _ => panic!("upB is a proxied upstream"),
    }
    assert_eq!(server.upstream[at].1.process(&tls.via.target), Handling::Relay { chained: true });
}

#[test]
fn accept_without_any_known_upstream_closes() {
    let p = Proxy::new("odd", &entry(&[], Some("gone")), local(1));
    let reg: Vec<(String, Upstream)> = vec![("ban".to_string(), Upstream::Ban)];
    assert_eq!(p.accept(&reg, b""), None);
}

#[test]
fn handling_of_each_upstream() {
    assert_eq!(Upstream::Ban.process("host:443"), Handling::Shutdown);
    assert_eq!(Upstream::Echo.process("host:443"), Handling::Echo);
    assert_eq!(Upstream::Health.process("host:443"), Handling::Health);
    let p = Upstream::Proxy(ProxyToUpstream::new("h:1".to_string(), "tcp".to_string()));
    assert_eq!(p.process("host:443"), Handling::Relay { chained: true });
    assert_eq!(p.process(""), Handling::Relay { chained: false });
}

#[test]
fn listeners_with_unknown_protocol_do_not_start() {
    let mut server = built();
    server.proxies[1].protocol = "udp".to_string();
    assert_eq!(server.run(), vec![true, false, true, true]);
    assert!(server.proxies[0].can_start());
    assert!(!server.proxies[1].can_start());
}

#[test]
fn copies_are_equal() {
    let pairs = vec![("a".to_string(), "b".to_string()), ("c".to_string(), "d".to_string())];
    assert_eq!(copy_pairs(&pairs), pairs);
    let via = ViaUpstream { headers: pairs.clone(), target: "t:1".to_string(), connect_timeout: 9 };
    let copy = copy_via(&via);
    assert_eq!(copy.headers, pairs);
    assert_eq!(copy.target, "t:1");
    assert_eq!(copy.connect_timeout, 9);
    assert_eq!(find_address(&listens(), "127.0.0.1:4443"), Some(local(4443)));
    assert_eq!(find_address(&listens(), "bogus"), None);
}

#[test]
fn accept_loop_needs_a_permit() {
    assert_eq!(AcceptLoop::new(0), None);
    let l = AcceptLoop::new(3).unwrap();
    assert_eq!(l, AcceptLoop { max_clients: 3, in_flight: 0, phase: Phase::Waiting });
    assert_eq!(l.available(), 3);
    assert!(built().proxies[0].accept_loop().is_some());
}

#[test]
fn accept_loop_never_exceeds_max_clients() {
    let mut l = AcceptLoop::new(2).unwrap();
    assert_eq!(l.step(AcceptEvent::Ready), AcceptAction { spawn: false, next: Next::Accept });
    assert_eq!(l.available(), 1);
    assert_eq!(l.step(AcceptEvent::Accepted), AcceptAction { spawn: true, next: Next::Accept });
    assert_eq!(l.in_flight, 1);
    assert_eq!(l.step(AcceptEvent::Accepted), AcceptAction { spawn: true, next: Next::Wait });
    assert_eq!(l.in_flight, 2);
    assert_eq!(l.available(), 0);
    assert_eq!(l.step(AcceptEvent::Accepted), AcceptAction { spawn: false, next: Next::Wait });
    assert_eq!(l.in_flight, 2);
    assert_eq!(l.step(AcceptEvent::Ready), AcceptAction { spawn: false, next: Next::Wait });
    assert_eq!(l.step(AcceptEvent::Finished), AcceptAction { spawn: false, next: Next::Accept });
    assert_eq!(l.in_flight, 1);
    assert_eq!(l.step(AcceptEvent::Finished), AcceptAction { spawn: false, next: Next::Continue });
    assert_eq!(l.in_flight, 0);
    assert_eq!(l.phase, Phase::Accepting);
}

#[test]
fn accept_loop_random_walk_stays_bounded() {
    let events = [
        AcceptEvent::Ready,
        AcceptEvent::Accepted,
        AcceptEvent::WouldBlock,
        AcceptEvent::Finished,
        AcceptEvent::Accepted,
        AcceptEvent::Accepted,
    ];
    let mut l = AcceptLoop::new(3).unwrap();
    let mut seed: u32 = 7;
    for _ in 0..2000 {
        seed = seed.wrapping_mul(1103515245).wrapping_add(12345);
        let e = events[((seed >> 16) as usize) % events.len()];
        let before = l.in_flight;
        let a = l.step(e);
        assert!(l.in_flight <= 3);
        assert_eq!(a.spawn, l.in_flight == before + 1);
    }
}

#[test]
fn accept_would_block_costs_no_permit() {
    let mut l = AcceptLoop::new(1).unwrap();
    l.step(AcceptEvent::Ready);
    let before = l;
    assert_eq!(l.step(AcceptEvent::WouldBlock), AcceptAction { spawn: false, next: Next::Accept });
    assert_eq!(l, before);
}

#[test]
fn accept_error_stops_the_listener() {
    let mut l = AcceptLoop::new(2).unwrap();
    l.step(AcceptEvent::Ready);
    l.step(AcceptEvent::Accepted);
    assert_eq!(l.step(AcceptEvent::AcceptFailed), AcceptAction { spawn: false, next: Next::Stop });
    assert_eq!(l.phase, Phase::Stopped);
    assert_eq!(l.in_flight, 1);
    assert_eq!(l.step(AcceptEvent::Ready), AcceptAction { spawn: false, next: Next::Stop });
    assert_eq!(l.step(AcceptEvent::Accepted), AcceptAction { spawn: false, next: Next::Stop });
    assert_eq!(l.step(AcceptEvent::Finished), AcceptAction { spawn: false, next: Next::Stop });
    assert_eq!(l.in_flight, 0);
}

#[test]
fn only_tls_listeners_peek() {
    let server = built();
    assert_eq!(server.proxies[0].peek_len(), 0);
    assert_eq!(server.proxies[2].peek_len(), 1024);
}
