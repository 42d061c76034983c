use l4p::config::{
    build_registry, check_names, check_server, check_servers, is_known_upstream,
    is_reserved_name, log_level, BaseConfig, ConfigError, ConfigV1, ServerConfig, ViaUpstream,
};
use l4p::locate::{config_candidates, find_config};
use l4p::text::{decimal_text, fold, same_bytes, same_text, same_text_ignoring_case};
use l4p::upstream::{is_supported_protocol, ProxyToUpstream, Upstream, UrlFault, UrlParts};

fn server(listen: &[&str], default: Option<&str>) -> ServerConfig {
    ServerConfig {
        listen: listen.iter().map(|s| s.to_string()).collect(),
        protocol: None,
        tls: None,
        sni: None,
        default: default.map(|s| s.to_string()),
        via: ViaUpstream::default(),
        maxclients: 10,
    }
}

fn sample() -> BaseConfig {
    let mut tls = server(&["127.0.0.1:4443"], Some("ban"));
    tls.tls = Some(true);
    tls.sni = Some(vec![
        ("a.example".to_string(), "up1".to_string()),
        ("b.example".to_string(), "up2".to_string()),
    ]);
    BaseConfig {
        version: 1,
        log: Some("disable".to_string()),
        servers: vec![
            ("proxy".to_string(), server(&["127.0.0.1:54500"], Some("up1"))),
            ("echo".to_string(), server(&["127.0.0.1:54956"], Some("echo"))),
            ("tls".to_string(), tls),
        ],
        upstream: vec![
            ("up1".to_string(), "tcp://127.0.0.1:54599".to_string()),
            ("up2".to_string(), "tcp4://example.com:443".to_string()),
        ],
        via: ViaUpstream::default(),
    }
}

#[test]
fn config_v1_test_load_config() {
    let config = ConfigV1::new(sample()).unwrap();
    assert_eq!(config.base.version, 1);
    assert_eq!(config.base.log.unwrap(), "disable");
    assert_eq!(config.base.servers.len(), 3);
    assert_eq!(config.base.upstream.len(), 3 + 2);
}

#[test]
fn valid_config_is_accepted() {
    let config = ConfigV1::new(sample()).unwrap();
    assert_eq!(config.base.servers.len(), sample().servers.len());
    let names: Vec<&str> = config.base.upstream.iter().map(|(n, _)| n.as_str()).collect();
    assert_eq!(names, vec!["ban", "echo", "health", "up1", "up2"]);
    assert!(matches!(config.base.upstream[0].1, Upstream::Ban));
    assert!(matches!(config.base.upstream[1].1, Upstream::Echo));
    assert!(matches!(config.base.upstream[2].1, Upstream::Health));
    match &config.base.upstream[3].1 {
        Upstream::Proxy(p) => {
            assert_eq!(p.addr, "127.0.0.1:54599");
            assert_eq!(p.protocol, "tcp");
            assert_eq!(p.addresses.address, "127.0.0.1:54599");
            assert!(p.addresses.resolved_addresses.is_empty());
        }
        _ => panic!("up1 is a proxied upstream"),
    }
    match &config.base.upstream[4].1 {
        Upstream::Proxy(p) => {
            assert_eq!(p.addr, "example.com:443");
            assert_eq!(p.protocol, "tcp4");
        }
        _ => panic!("up2 is a proxied upstream"),
    }
}

#[test]
fn unsupported_version_is_refused() {
    let mut base = sample();
    base.version = 2;
    let e = ConfigV1::new(base).unwrap_err();
    assert_eq!(e, ConfigError::UnsupportedVersion);
    assert_eq!(e.message(), "Unsupported config version");
}

#[test]
fn invalid_upstream_url_is_refused() {
    let mut base = sample();
    base.upstream.push(("bad".to_string(), "not a url".to_string()));
    let e = ConfigV1::new(base).unwrap_err();
    assert_eq!(e, ConfigError::InvalidUpstreamUrl("not a url".to_string()));
    assert_eq!(e.message(), "Invalid upstream url not a url");
}

#[test]
fn upstream_url_without_port_is_refused() {
    let mut base = sample();
    base.upstream[0].1 = "tcp://127.0.0.1".to_string();
    let e = ConfigV1::new(base).unwrap_err();
    assert_eq!(e, ConfigError::InvalidUpstreamUrl("tcp://127.0.0.1".to_string()));
}

#[test]
fn unsupported_scheme_is_refused() {
    let mut base = sample();
    base.upstream[1].1 = "http://example.com".to_string();
    let e = ConfigV1::new(base).unwrap_err();
    assert_eq!(e, ConfigError::InvalidUpstreamScheme("http://example.com".to_string()));
    assert_eq!(e.message(), "Invalid upstream scheme http://example.com");
}

#[test]
fn duplicate_upstream_name_is_refused() {
    let mut base = sample();
    base.upstream.push(("up1".to_string(), "tcp://127.0.0.1:1".to_string()));
    let e = ConfigV1::new(base).unwrap_err();
    assert_eq!(e, ConfigError::DuplicateUpstreamName("up1".to_string()));
    assert_eq!(e.message(), "Duplicate upstream name up1");
}

#[test]
fn reserved_names_cannot_be_redefined() {
    for name in ["ban", "echo", "health"] {
        let mut base = sample();
        base.upstream.push((name.to_string(), "tcp://127.0.0.1:1".to_string()));
        let e = ConfigV1::new(base).unwrap_err();
        assert_eq!(e, ConfigError::DuplicateUpstreamName(name.to_string()));
    }
    assert!(is_reserved_name("ban"));
    assert!(is_reserved_name("echo"));
    assert!(is_reserved_name("health"));
    assert!(!is_reserved_name("Ban"));
    assert!(!is_reserved_name("up1"));
}

#[test]
fn duplicate_listen_address_is_refused() {
    let mut base = sample();
    base.servers[2].1.listen.push("127.0.0.1:54500".to_string());
    let e = ConfigV1::new(base).unwrap_err();
    assert_eq!(e, ConfigError::DuplicateListenAddress("127.0.0.1:54500".to_string()));
    assert_eq!(e.message(), "Duplicate listen address 127.0.0.1:54500");

    let mut base = sample();
    base.servers[0].1.listen = vec!["0.0.0.0:1".to_string(), "0.0.0.0:1".to_string()];
    let e = ConfigV1::new(base).unwrap_err();
    assert_eq!(e, ConfigError::DuplicateListenAddress("0.0.0.0:1".to_string()));
}

#[test]
fn unknown_default_upstream_is_refused() {
    let mut base = sample();
    base.servers[1].1.default = Some("nowhere".to_string());
    let e = ConfigV1::new(base).unwrap_err();
    assert_eq!(e, ConfigError::UpstreamNotFound("nowhere".to_string()));
    assert_eq!(e.message(), "Upstream nowhere not found");
}

#[test]
fn unknown_sni_upstream_is_refused() {
    let mut base = sample();
    base.servers[2].1.sni.as_mut().unwrap()[1].1 = "up9".to_string();
    let e = ConfigV1::new(base).unwrap_err();
    assert_eq!(e, ConfigError::UpstreamNotFound("up9".to_string()));
}

#[test]
fn zero_maxclients_is_refused() {
    let mut base = sample();
    base.servers[1].1.maxclients = 0;
    let e = ConfigV1::new(base).unwrap_err();
    assert_eq!(e, ConfigError::InvalidMaxClients("echo".to_string()));
    assert_eq!(e.message(), "Invalid maxclients for server echo");
}

#[test]
fn first_fault_in_check_order_is_reported() {
    let mut base = sample();
    base.servers[0].1.maxclients = 0;
    base.servers[0].1.default = Some("nowhere".to_string());
    base.upstream.push(("up1".to_string(), "http://x".to_string()));
    assert_eq!(
        ConfigV1::new(base.clone()).unwrap_err(),
        ConfigError::InvalidUpstreamScheme("http://x".to_string())
    );
    base.upstream[2].1 = "tcp://x:1".to_string();
    assert_eq!(
        ConfigV1::new(base.clone()).unwrap_err(),
        ConfigError::DuplicateUpstreamName("up1".to_string())
    );
    base.upstream.pop();
    assert_eq!(
        ConfigV1::new(base.clone()).unwrap_err(),
        ConfigError::InvalidMaxClients("proxy".to_string())
    );
    base.servers[0].1.maxclients = 1;
    assert_eq!(
        ConfigV1::new(base.clone()).unwrap_err(),
        ConfigError::UpstreamNotFound("nowhere".to_string())
    );
    version_then_rest(base);
}

fn version_then_rest(mut base: BaseConfig) {
    base.version = 0;
    assert_eq!(ConfigV1::new(base).unwrap_err(), ConfigError::UnsupportedVersion);
}

#[test]
fn missing_default_means_ban() {
    let mut base = sample();
    base.servers[0].1.default = None;
    assert!(ConfigV1::new(base).is_ok());
}

#[test]
fn checks_one_by_one() {
    let base = sample();
    assert_eq!(check_names(&base.upstream), None);
    assert_eq!(check_servers(&base.upstream, &base.servers), None);
    assert_eq!(check_server(&base.upstream, &base.servers, 2), None);
    assert!(is_known_upstream(&base.upstream, "up2"));
    assert!(is_known_upstream(&base.upstream, "health"));
    assert!(!is_known_upstream(&base.upstream, "up3"));
    let reg = build_registry(&base.upstream).unwrap();
    assert_eq!(reg.len(), 5);
}

#[test]
fn log_levels() {
    assert_eq!(log_level(&None), Some("info".to_string()));
    assert_eq!(log_level(&Some("debug".to_string())), Some("debug".to_string()));
    assert_eq!(log_level(&Some("disable".to_string())), None);
}

#[test]
fn upstream_from_url() {
    let p = ProxyToUpstream::from_url("tcp://127.0.0.1:54599").unwrap();
    assert_eq!(p.addr, "127.0.0.1:54599");
    assert_eq!(p.protocol, "tcp");
    let p = ProxyToUpstream::from_url("tcp6://[::1]:8443").unwrap();
    assert_eq!(p.addr, "[::1]:8443");
    assert_eq!(p.protocol, "tcp6");
    let p = ProxyToUpstream::from_url("TCP4://Example.COM:65535/path").unwrap();
    assert_eq!(p.protocol, "tcp4");
    assert!(p.addr.ends_with(":65535"));
    assert_eq!(ProxyToUpstream::from_url("").unwrap_err(), UrlFault::Invalid);
    assert_eq!(ProxyToUpstream::from_url("tcp://host").unwrap_err(), UrlFault::Invalid);
    assert_eq!(ProxyToUpstream::from_url("mailto:a@b.c").unwrap_err(), UrlFault::Invalid);
    assert_eq!(ProxyToUpstream::from_url("https://example.com").unwrap_err(), UrlFault::Scheme);
    assert_eq!(ProxyToUpstream::from_url("udp://example.com:53").unwrap_err(), UrlFault::Scheme);
}

#[test]
fn upstream_from_url_parts() {
    let parts = UrlParts { scheme: "tcp".to_string(), host: Some("h".to_string()), port: Some(0) };
    assert_eq!(ProxyToUpstream::from_url_parts(Some(parts)).unwrap().addr, "h:0");
    let parts = UrlParts { scheme: "tcp".to_string(), host: None, port: Some(1) };
    assert_eq!(ProxyToUpstream::from_url_parts(Some(parts)).unwrap_err(), UrlFault::Invalid);
    let parts = UrlParts { scheme: "tcp".to_string(), host: Some("h".to_string()), port: None };
    assert_eq!(ProxyToUpstream::from_url_parts(Some(parts)).unwrap_err(), UrlFault::Invalid);
    let parts = UrlParts { scheme: "ftp".to_string(), host: Some("h".to_string()), port: Some(21) };
    assert_eq!(ProxyToUpstream::from_url_parts(Some(parts)).unwrap_err(), UrlFault::Scheme);
    assert_eq!(ProxyToUpstream::from_url_parts(None).unwrap_err(), UrlFault::Invalid);
}

#[test]
fn supported_protocols() {
    assert!(is_supported_protocol("tcp"));
    assert!(is_supported_protocol("tcp4"));
    assert!(is_supported_protocol("tcp6"));
    assert!(!is_supported_protocol("udp"));
    assert!(!is_supported_protocol("tcp5"));
}

#[test]
fn text_helpers() {
    assert_eq!(decimal_text(0), "0");
    assert_eq!(decimal_text(7), "7");
    assert_eq!(decimal_text(10), "10");
    assert_eq!(decimal_text(443), "443");
    assert_eq!(decimal_text(54599), "54599");
    assert_eq!(decimal_text(65535), "65535");
    assert_eq!(fold('A'), 'a');
    assert_eq!(fold('Z'), 'z');
    assert_eq!(fold('a'), 'a');
    assert_eq!(fold('@'), '@');
    assert_eq!(fold('['), '[');
    assert_eq!(fold('É'), 'É');
    assert!(same_text("abc", "abc"));
    assert!(!same_text("abc", "abd"));
    assert!(!same_text("abc", "ab"));
    assert!(same_bytes(b"", b""));
    assert!(!same_bytes(b"a", b""));
    assert!(same_text_ignoring_case("A.Example", "a.eXAMPLE"));
    assert!(!same_text_ignoring_case("a.example", "a.example."));
    assert!(!same_text_ignoring_case("É", "é"));
}

#[test]
fn config_file_candidates() {
    assert_eq!(
        config_candidates(None),
        vec!["/etc/l4p/l4p.yaml", "/etc/l4p/config.yaml", "l4p.yaml", "config.yaml"]
    );
    assert_eq!(
        config_candidates(Some("/tmp/my.yaml".to_string())),
        vec!["/tmp/my.yaml", "/etc/l4p/l4p.yaml", "/etc/l4p/config.yaml", "l4p.yaml", "config.yaml"]
    );
}

#[test]
fn config_file_is_the_first_that_exists() {
    let paths = config_candidates(None);
    assert_eq!(
        find_config(paths.clone(), &vec![false, true, false, true]),
        Ok("/etc/l4p/config.yaml".to_string())
    );
    assert_eq!(find_config(paths.clone(), &vec![false, false, false, false]), Err(paths.clone()));
    assert_eq!(find_config(paths.clone(), &vec![false, false]), Err(paths.clone()));
    assert_eq!(find_config(paths.clone(), &vec![false, false, false, true]), Ok("config.yaml".to_string()));
    assert_eq!(find_config(Vec::new(), &vec![true]), Err(Vec::new()));
}
