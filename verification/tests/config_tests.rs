use ldd_nat_cross_rclient::builder::{
    build_auth_message, build_connect_message, build_open_server_message, build_transfer_message,
};
use ldd_nat_cross_rclient::config::{
    default_error_path, default_log_config, default_path, Args, ClientConfig, ConfigWrapper,
    LogConfig,
};
use ldd_nat_cross_rclient::message::{get_field, CmdType};
use ldd_nat_cross_rclient::protocol::ProtocolEnum;
use ldd_nat_cross_rclient::proxy::ProxyConfig;
use ldd_nat_cross_rclient::strutil::{fmt_i32, parse_i32};

#[test]
fn proxy_map_round_trip_is_lossless_for_known_protocols() {
    let p = ProxyConfig::new("127.0.0.1".to_string(), 8080, 9000, ProtocolEnum::UDP);
    let map = p.to_map();
    let back = ProxyConfig::from_map(&map).expect("round trip failed");
    assert_eq!(back.host(), "127.0.0.1");
    assert_eq!(back.port(), 8080);
    assert_eq!(back.open_port(), 9000);
    assert_eq!(back.protocol().as_str(), "udp");
}

#[test]
fn proxy_from_map_rejects_missing_or_malformed_fields() {
    let p = ProxyConfig::new("h".to_string(), 1, 2, ProtocolEnum::TCP);
    let mut map = p.to_map();
    map.retain(|(k, _)| k != "proxy_port");
    assert!(ProxyConfig::from_map(&map).is_none());
    let mut bad = p.to_map();
    for pair in bad.iter_mut() {
        if pair.0 == "proxy_port" {
            pair.1 = "not-a-number".to_string();
        }
    }
    assert!(ProxyConfig::from_map(&bad).is_none());
    let mut odd = p.to_map();
    for pair in odd.iter_mut() {
        if pair.0 == "proxy_protocol" {
            pair.1 = "carrier-pigeon".to_string();
        }
    }
    assert!(ProxyConfig::from_map(&odd).is_none());
}

#[test]
fn protocol_spellings() {
    assert!(matches!(ProtocolEnum::of("tcp"), Some(ProtocolEnum::TCP)));
    assert!(matches!(ProtocolEnum::of("udp"), Some(ProtocolEnum::UDP)));
    assert!(ProtocolEnum::of("sctp").is_none());
    assert_eq!(ProtocolEnum::TCP.as_str(), "tcp");
    assert_eq!(ProtocolEnum::UDP.as_str(), "udp");
    assert_eq!(ProtocolEnum::Unknown("quic".to_string()).as_str(), "quic");
}

#[test]
fn decimal_round_trip_and_edges() {
    for n in [0i32, 7, -1, 42, 3306, -3306, i32::MAX, i32::MIN] {
        let s = fmt_i32(n);
        assert_eq!(parse_i32(s.as_str()), Some(n), "round trip of {}", n);
    }
    assert_eq!(fmt_i32(3306), "3306");
    assert_eq!(fmt_i32(-25), "-25");
    assert_eq!(parse_i32(""), None);
    assert_eq!(parse_i32("-"), None);
    assert_eq!(parse_i32("12a"), None);
    assert_eq!(parse_i32("2147483647"), Some(i32::MAX));
    assert_eq!(parse_i32("2147483648"), None);
    assert_eq!(parse_i32("-2147483648"), Some(i32::MIN));
    assert_eq!(parse_i32("-2147483649"), None);
    assert_eq!(parse_i32("007"), Some(7));
}

#[test]
fn builders_fill_required_fields() {
    let auth = build_auth_message("pw");
    assert_eq!(auth.cmd_type, CmdType::Auth);
    assert_eq!(auth.get_meta("auth_password").map(|s| s.clone()), Some("pw".to_string()));
    assert!(auth.data.is_empty());

    let p = ProxyConfig::new("localhost".to_string(), 3306, 9011, ProtocolEnum::TCP);
    let os = build_open_server_message(&p, "L".to_string());
    assert_eq!(os.cmd_type, CmdType::OpenServer);
    assert_eq!(os.get_meta("license_key").map(|s| s.clone()), Some("L".to_string()));
    assert_eq!(os.get_meta("proxy_host").map(|s| s.clone()), Some("localhost".to_string()));

    let cn = build_connect_message(p, "L".to_string(), "v1".to_string());
    assert_eq!(cn.cmd_type, CmdType::Connect);
    assert_eq!(cn.get_meta("visitor_id").map(|s| s.clone()), Some("v1".to_string()));
    assert_eq!(cn.get_meta("license_key").map(|s| s.clone()), Some("L".to_string()));

    let tr = build_transfer_message(vec![1, 2, 3], "v1".to_string(), "L".to_string());
    assert_eq!(tr.cmd_type, CmdType::Transfer);
    assert_eq!(tr.data, vec![1, 2, 3]);
    assert_eq!(tr.get_meta("visitor_id").map(|s| s.clone()), Some("v1".to_string()));
}

#[test]
fn field_lookup_reports_absence() {
    let auth = build_auth_message("pw");
    assert!(auth.get_meta("license_key").is_none());
    let fields = vec![("k".to_string(), "v".to_string())];
    assert_eq!(get_field(&fields, "k").map(|s| s.clone()), Some("v".to_string()));
    assert!(get_field(&fields, "missing").is_none());
}

#[test]
fn client_config_holds_settings_and_proxies() {
    let mut cc = ClientConfig::new("example.net".to_string(), 7000, "pw".to_string());
    assert_eq!(cc.get_server_host(), "example.net");
    assert_eq!(cc.get_server_port(), 7000);
    assert_eq!(cc.get_password(), "pw");
    assert!(cc.get_proxy().is_empty());
    cc.add_proxy(ProxyConfig::new("h".to_string(), 1, 2, ProtocolEnum::TCP));
    assert_eq!(cc.get_proxy().len(), 1);
    assert_eq!(cc.get_proxy()[0].port(), 1);
}

#[test]
fn log_config_defaults_and_wrapper() {
    assert_eq!(default_error_path(), "error.log");
    assert_eq!(default_path(), "client.log");
    let lc = default_log_config();
    assert_eq!(lc.get_error_path(), "error.log");
    assert_eq!(lc.get_path(), "client.log");
    let lc2 = LogConfig::new("e".to_string(), "p".to_string());
    let cc = ClientConfig::new("h".to_string(), 1, "pw".to_string());
    let w = ConfigWrapper::new(cc, lc2);
    assert_eq!(w.get_log_config().get_error_path(), "e");
    assert_eq!(w.get_client_config().get_server_host(), "h");
    let args = Args::new("/tmp/conf.yaml".to_string());
    assert_eq!(args.get_config_path(), "/tmp/conf.yaml");
}
