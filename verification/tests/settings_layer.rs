use rustcomm::settings::{
    both_settings, get_namespaced_string, get_namespaced_usize, get_namespaced_value,
    make_namespaced_key, optional_setting, select_transport, tcp_settings, transport_kind,
    transport_type_or_default, usize_or, TransportKind, DEFAULT_MAX_READ_SIZE,
    DEFAULT_POLL_CAPACITY,
};
use rustcomm::Error;

fn config(pairs: &[(&str, &str)]) -> config::Config {
    let mut builder = config::Config::builder();
    for (k, v) in pairs {
        builder = builder.set_default(*k, *v).unwrap();
    }
    builder.build().unwrap()
}

#[test]
fn namespaced_key() {
    assert_eq!(make_namespaced_key("game_server", "max_read_size"), "game_server.max_read_size");
}

#[test]
fn namespace_wins_over_global() {
    let cfg = config(&[("transport_type", "tcp"), ("auth.transport_type", "quic")]);
    assert_eq!(get_namespaced_string(&cfg, "auth", "transport_type").unwrap(), "quic");
    assert_eq!(get_namespaced_string(&cfg, "game", "transport_type").unwrap(), "tcp");
    assert_eq!(get_namespaced_string(&cfg, "", "transport_type").unwrap(), "tcp");
    assert!(get_namespaced_string(&cfg, "auth", "missing").is_err());
}

#[test]
fn namespaced_numbers() {
    let cfg = config(&[("max_read_size", "10"), ("big.max_read_size", "4194304")]);
    assert_eq!(get_namespaced_usize(&cfg, "big", "max_read_size").unwrap(), 4194304);
    assert_eq!(get_namespaced_usize(&cfg, "small", "max_read_size").unwrap(), 10);
    let seen = get_namespaced_value(&cfg, "big", "max_read_size", |c: &config::Config, k: &str| {
        c.get_string(k)
    });
    assert_eq!(seen.unwrap(), "4194304");
}

#[test]
fn tcp_defaults_and_overrides() {
    let cfg = config(&[]);
    let s = tcp_settings(&cfg, "");
    assert_eq!(s.max_read_size, DEFAULT_MAX_READ_SIZE);
    assert_eq!(s.poll_capacity, DEFAULT_POLL_CAPACITY);
    let cfg = config(&[("x.poll_capacity", "8"), ("max_read_size", "99")]);
    let s = tcp_settings(&cfg, "x");
    assert_eq!(s.max_read_size, 99);
    assert_eq!(s.poll_capacity, 8);
}

#[test]
fn transport_type_selection() {
    assert_eq!(transport_kind(&config(&[]), "").ok(), Some(TransportKind::Tcp));
    assert_eq!(
        transport_kind(&config(&[("transport_type", "quic")]), "").ok(),
        Some(TransportKind::Quic)
    );
    assert_eq!(
        transport_kind(&config(&[("transport_type", "tcp"), ("s.transport_type", "tls")]), "s").ok(),
        Some(TransportKind::Tls)
    );
    match select_transport("udp".to_string()) {
        Err(Error::InvalidTransportType { got, valid }) => {
            assert_eq!(got, "udp");
            assert_eq!(valid, vec!["tcp".to_string(), "tls".to_string(), "quic".to_string()]);
        }
        _ => panic!("expected InvalidTransportType"),
    }
}

#[test]
fn defaults_for_failed_lookups() {
    let cfg = config(&[]);
    assert_eq!(usize_or(cfg.get::<usize>("nothing"), 5), 5);
    assert_eq!(transport_type_or_default(cfg.get_string("nothing")), "tcp");
    assert_eq!(transport_type_or_default(Ok("quic".to_string())), "quic");
}

#[test]
fn optional_and_paired_settings() {
    let cfg = config(&[("a", "1"), ("b", "2")]);
    assert_eq!(optional_setting(cfg.get_string("a")).unwrap(), Some("1".to_string()));
    assert_eq!(optional_setting(cfg.get_string("zzz")).unwrap(), None);
    assert_eq!(
        both_settings(cfg.get_string("a"), cfg.get_string("b")),
        Some(("1".to_string(), "2".to_string()))
    );
    assert_eq!(both_settings(cfg.get_string("a"), cfg.get_string("c")), None);
}
