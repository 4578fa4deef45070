use thru::config::{get_config_path, handle_get_ip, handle_init, handle_set_alias, handle_set_ip,
    handle_set_user, handle_show, init_source, is_ipv4, is_yes, join_path, may_write_config, parse_ip_input,
    parse_port_input, AliasMap, Config, InitError, InitSource};

#[test]
fn default_config() {
    let c = Config::default();
    assert_eq!(c.device.phone_ip, "");
    assert_eq!(c.device.phone_user, "");
    assert_eq!(c.device.phone_port, 8022);
    assert!(c.aliases.is_empty());
    assert_eq!(c.paths.receive_dir, "~/Downloads/Thru");
    assert!(c.ssh.auto_start);
}

#[test]
fn set_and_get_ip() {
    let mut c = Config::default();
    let msg = handle_set_ip(&mut c, "100.118.195.54");
    assert_eq!(msg, "✓ 手机 IP 已设置为：100.118.195.54");
    assert_eq!(handle_get_ip(&c), "100.118.195.54");
    assert_eq!(c.device.phone_port, 8022);
}

#[test]
fn set_user() {
    let mut c = Config::default();
    assert_eq!(handle_set_user(&mut c, "u0_a406"), "✓ 手机用户已设置为：u0_a406");
    assert_eq!(c.device.phone_user, "u0_a406");
}

#[test]
fn alias_read_after_write() {
    let mut c = Config::default();
    assert_eq!(handle_set_alias(&mut c, "100.118.195.54", "小米15"),
        "✓ 设备别名已设置：100.118.195.54 → 小米15");
    handle_set_alias(&mut c, "10.0.0.2", "laptop");
    handle_set_alias(&mut c, "100.118.195.54", "我的小米15");
    assert_eq!(c.aliases.get("100.118.195.54"), Some("我的小米15".to_string()));
    assert_eq!(c.aliases.get("10.0.0.2"), Some("laptop".to_string()));
    assert_eq!(c.aliases.get("10.0.0.3"), None);
    assert_eq!(c.aliases.len(), 2);
}

#[test]
fn alias_entries_keep_first_setting_order() {
    let mut m = AliasMap::new();
    m.insert("b", "2");
    m.insert("a", "1");
    m.insert("b", "3");
    let e: Vec<(String, String)> = m.entries().clone();
    assert_eq!(e, vec![("b".to_string(), "3".to_string()), ("a".to_string(), "1".to_string())]);
}

#[test]
fn show_lines() {
    let mut c = Config::default();
    handle_set_ip(&mut c, "1.2.3.4");
    handle_set_user(&mut c, "me");
    let lines = handle_show(&c);
    assert_eq!(lines, vec!["📱 设备配置:", "  IP: 1.2.3.4", "  用户：me", "  端口：8022",
        "\n📁 路径:", "  接收目录：~/Downloads/Thru", "\n🔧 SSH:", "  自动启动：true"]);
    handle_set_alias(&mut c, "1.2.3.4", "phone");
    let lines = handle_show(&c);
    assert_eq!(lines.len(), 10);
    assert_eq!(lines[8], "\n🏷️  设备别名:");
    assert_eq!(lines[9], "  1.2.3.4 → phone");
}

#[test]
fn paths_join_like_path_join() {
    assert_eq!(join_path("/home/u/.thru", "config.toml", '/'), "/home/u/.thru/config.toml");
    assert_eq!(join_path("/home/u/.thru/", "config.toml", '/'), "/home/u/.thru/config.toml");
    assert_eq!(join_path("", "config.toml", '/'), "config.toml");
    assert_eq!(join_path("C:\\Users\\u\\.thru", "config.toml", '\\'), "C:\\Users\\u\\.thru\\config.toml");
    assert_eq!(join_path("C:/x/", "a", '\\'), "C:/x/a");
    assert_eq!(get_config_path("/home/u/.thru", '/'), "/home/u/.thru/config.toml");
    let sep = std::path::MAIN_SEPARATOR;
    let base = std::path::PathBuf::from("base").join(".thru");
    let b = base.display().to_string();
    assert_eq!(join_path(&b, "config.toml", sep), base.join("config.toml").display().to_string());
}

#[test]
fn init_needs_both_or_neither() {
    assert_eq!(init_source(Some("1.2.3.4".into()), None, Some("me".into())),
        Ok(InitSource::Arguments { ip: "1.2.3.4".into(), port: 8022, user: "me".into() }));
    assert_eq!(init_source(Some("1.2.3.4".into()), Some(22), Some("me".into())),
        Ok(InitSource::Arguments { ip: "1.2.3.4".into(), port: 22, user: "me".into() }));
    assert_eq!(init_source(Some("1.2.3.4".into()), None, None), Err(InitError::IncompleteArguments));
    assert_eq!(init_source(None, Some(22), Some("me".into())), Err(InitError::IncompleteArguments));
    assert_eq!(init_source(None, None, None), Ok(InitSource::Prompt));
}

#[test]
fn prompted_port() {
    assert_eq!(parse_port_input(" 2222\n"), Some(2222));
    assert_eq!(parse_port_input("\n"), Some(8022));
    assert_eq!(parse_port_input(""), Some(8022));
    assert_eq!(parse_port_input("65535"), Some(65535));
    assert_eq!(parse_port_input("+22"), Some(22));
    assert_eq!(parse_port_input("abc\n"), Some(8022));
    assert_eq!(parse_port_input("-1"), Some(8022));
    assert_eq!(parse_port_input("22a"), Some(8022));
    assert_eq!(parse_port_input("70000"), None);
    assert_eq!(parse_port_input("99999999999999999999999"), None);
    assert_eq!(parse_port_input("0"), None);
}

#[test]
fn prompted_ip() {
    assert_eq!(parse_ip_input(" 100.118.195.54\n"), Some("100.118.195.54".to_string()));
    assert_eq!(parse_ip_input("192.168.1.1"), Some("192.168.1.1".to_string()));
    assert_eq!(parse_ip_input("0.0.0.0"), Some("0.0.0.0".to_string()));
    assert_eq!(parse_ip_input("255.255.255.255"), Some("255.255.255.255".to_string()));
    assert_eq!(parse_ip_input(""), None);
    assert_eq!(parse_ip_input("256.1.1.1"), None);
    assert_eq!(parse_ip_input("1.2.3"), None);
    assert_eq!(parse_ip_input("1.2.3.4.5"), None);
    assert_eq!(parse_ip_input("01.2.3.4"), None);
    assert_eq!(parse_ip_input("+1.2.3.4"), None);
    assert_eq!(parse_ip_input("1..3.4"), None);
    assert_eq!(parse_ip_input("phone"), None);
    assert!(is_ipv4("10.0.0.1"));
    assert!(!is_ipv4("10.0.0.1 "));
}

#[test]
fn overwrite_needs_yes() {
    assert!(may_write_config(false, ""));
    assert!(may_write_config(true, "y\n"));
    assert!(may_write_config(true, " YES "));
    assert!(may_write_config(true, "Yes"));
    assert!(!may_write_config(true, ""));
    assert!(!may_write_config(true, "n"));
    assert!(!may_write_config(true, "yess"));
    assert!(is_yes("Y"));
    assert!(!is_yes("no"));
}

#[test]
fn init_config() {
    assert!(matches!(handle_init("".into(), 8022, "me".into()), Err(InitError::EmptyIpOrUser)));
    assert!(matches!(handle_init("1.2.3.4".into(), 8022, "".into()), Err(InitError::EmptyIpOrUser)));
    let c = handle_init("1.2.3.4".into(), 2222, "me".into()).unwrap();
    assert_eq!(c.device.phone_ip, "1.2.3.4");
    assert_eq!(c.device.phone_user, "me");
    assert_eq!(c.device.phone_port, 2222);
    assert_eq!(c.paths.receive_dir, "~/Downloads/Thru");
    assert!(c.ssh.auto_start);
}
