use thru::config::{handle_set_alias, Config};
use thru::discovery::{device_line, DeviceInfo, DiscoverMessage, Discovery};
use thru::receive::{get_device_display_name, needs_tailscale_lookup};
use thru::tailscale::{get_device_name, is_tailscale_ip, status_command, TailscaleDevice, TailscaleStatus};

fn device(host: &str, ips: &[&str]) -> TailscaleDevice {
    TailscaleDevice {
        dns_name: format!("{}.tail.ts.net.", host),
        tailscale_ips: ips.iter().map(|s| s.to_string()).collect(),
        host_name: host.to_string(),
        online: true,
    }
}

fn status() -> TailscaleStatus {
    TailscaleStatus {
        self_device: device("pc", &["100.100.1.1"]),
        peers: vec![
            ("nodekey:a".into(), device("xiaomi-15", &["100.118.195.54", "fd7a::1"])),
            ("nodekey:b".into(), device("ipad", &["100.90.1.2"])),
        ],
    }
}

fn found(name: &str, ip: &str, kind: &str) -> DeviceInfo {
    DeviceInfo {
        msg_type: kind.into(),
        name: name.into(),
        ip: ip.into(),
        port: 53317,
        device_id: "id".into(),
        network: "lan".into(),
    }
}

#[test]
fn tailscale_addresses() {
    assert!(is_tailscale_ip("100.118.195.54"));
    assert!(!is_tailscale_ip("10.0.0.1"));
    assert!(!is_tailscale_ip("1000.0.0.1"));
    assert!(!is_tailscale_ip("100"));
}

#[test]
fn peer_names_by_address() {
    let s = status();
    assert_eq!(get_device_name(&s, "100.118.195.54"), Some("xiaomi-15".to_string()));
    assert_eq!(get_device_name(&s, "100.90.1.2"), Some("ipad".to_string()));
    assert_eq!(get_device_name(&s, "100.100.1.1"), None);
}

#[test]
fn display_name_prefers_alias_then_tailscale_then_address() {
    let s = status();
    let mut c = Config::default();
    assert!(needs_tailscale_lookup(&c, "100.118.195.54"));
    assert_eq!(get_device_display_name(&c, "100.118.195.54", Some(&s)), "xiaomi-15 (100.118.195.54)");
    assert_eq!(get_device_display_name(&c, "100.118.195.54", None), "100.118.195.54");
    assert_eq!(get_device_display_name(&c, "192.168.1.9", Some(&s)), "192.168.1.9");
    assert_eq!(get_device_display_name(&c, "unknown", None), "unknown");
    handle_set_alias(&mut c, "100.118.195.54", "我的小米15");
    assert!(!needs_tailscale_lookup(&c, "100.118.195.54"));
    assert_eq!(get_device_display_name(&c, "100.118.195.54", Some(&s)), "我的小米15 (100.118.195.54)");
}

#[test]
fn discovery_messages() {
    let m = Discovery::discover_request();
    assert_eq!(m.msg_type, "THRU_DISCOVER");
    assert_eq!(m.version, "1.0");
    assert!(Discovery::should_respond(&m));
    assert!(!Discovery::should_respond(&DiscoverMessage { msg_type: "HELLO".into(), version: "1.0".into() }));
    let r = Discovery::response_info(None, "192.168.1.3".into(), 53318, "abc".into());
    assert_eq!(r.msg_type, "THRU_RESPONSE");
    assert_eq!(r.name, "Unknown");
    assert_eq!(r.network, "lan");
    assert_eq!(r.port, 53318);
    assert!(Discovery::is_response(&r));
    let r = Discovery::response_info(Some("pc".into()), "192.168.1.3".into(), 53317, "abc".into());
    assert_eq!(r.name, "pc");
    let _ = Discovery::new();
}

#[test]
fn only_replies_are_collected() {
    let got = Discovery::collect_responses(vec![
        found("a", "1.1.1.1", "THRU_RESPONSE"),
        found("b", "2.2.2.2", "THRU_DISCOVER"),
        found("c", "3.3.3.3", "THRU_RESPONSE"),
    ]);
    let names: Vec<String> = got.iter().map(|d| d.name.clone()).collect();
    assert_eq!(names, vec!["a", "c"]);
}

#[test]
fn device_lines_are_numbered_from_one() {
    assert_eq!(device_line(0, &found("pc", "192.168.1.3", "THRU_RESPONSE")),
        "  1. pc (192.168.1.3:53317) [lan]");
    assert_eq!(device_line(9, &found("x", "10.0.0.1", "THRU_RESPONSE")), "  10. x (10.0.0.1:53317) [lan]");
}

#[test]
fn tailscale_status_command_line() {
    let c = status_command();
    assert_eq!(c.program, "tailscale");
    assert_eq!(c.args, vec!["status", "--json"]);
}
