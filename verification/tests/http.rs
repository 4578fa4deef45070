use thru::http_client::HttpClient;
use thru::http_server::{admit_upload, is_ip_allowed, sanitize_file_name, stored_file_name, HttpServer,
    UploadDecision, BACKUP_PORT_1, BACKUP_PORT_2, DEFAULT_PORT};

#[test]
fn private_ranges_are_allowed() {
    for ip in ["10.0.0.1", "192.168.1.5", "172.16.0.1", "172.31.255.255", "100.64.0.1", "100.127.1.1",
        "127.0.0.1"] {
        assert!(is_ip_allowed(ip), "{}", ip);
    }
}

#[test]
fn other_addresses_are_refused() {
    for ip in ["8.8.8.8", "192.169.1.5", "172.15.0.1", "172.32.0.1", "100.63.0.1", "100.128.0.1",
        "10.0.0", "10.0.0.1.5", "256.0.0.1", "::1", "", "abc.168.0.1", "::ffff:10.0.0.1"] {
        assert!(!is_ip_allowed(ip), "{}", ip);
    }
}

#[test]
fn components_are_read_as_std_parses_bytes() {
    assert!(is_ip_allowed("+10.0.0.1"));
    assert!(is_ip_allowed("010.0.0.1"));
    assert!(is_ip_allowed("10..."));
    assert!(is_ip_allowed("192.+168.0.1"));
    assert!(!is_ip_allowed("192.168 .0.1"));
}

#[test]
fn refused_upload_names_the_address() {
    match admit_upload("8.8.8.8") {
        UploadDecision::Forbidden { message } => assert_eq!(message, "IP 8.8.8.8 not allowed"),
        UploadDecision::Accepted => panic!("accepted"),
    }
    assert!(matches!(admit_upload("192.168.0.9"), UploadDecision::Accepted));
}

#[test]
fn stored_names_are_sanitized() {
    assert_eq!(stored_file_name("20260101_120000", Some("my file(1).jpg")),
        "20260101_120000_my_file_1_.jpg");
    assert_eq!(stored_file_name("20260101_120000", Some("照片-2.jpg")), "20260101_120000_照片-2.jpg");
    assert_eq!(stored_file_name("20260101_120000", None), "20260101_120000_unknown");
    assert_eq!(sanitize_file_name("../../etc/passwd"), ".._.._etc_passwd");
    assert_eq!(sanitize_file_name("a\\b:c"), "a_b_c");
}

#[test]
fn sanitizing_matches_std_classification() {
    let name = "Ünïcødé ½ ٣ x/y";
    let expected: String = name.chars()
        .map(|c| if c.is_alphanumeric() || c == '.' || c == '-' { c } else { '_' })
        .collect();
    assert_eq!(sanitize_file_name(name), expected);
}

#[test]
fn ports_fall_back_once_along_the_chain() {
    assert_eq!(HttpServer::with_port(DEFAULT_PORT).fallback_port(), Some(BACKUP_PORT_1));
    assert_eq!(HttpServer::with_port(BACKUP_PORT_1).fallback_port(), Some(BACKUP_PORT_2));
    assert_eq!(HttpServer::with_port(BACKUP_PORT_2).fallback_port(), None);
    assert_eq!(HttpServer::with_port(9000).port(), 9000);
}

#[test]
fn upload_url_is_built_from_address_and_port() {
    assert_eq!(HttpClient::upload_url("192.168.1.2", 53317), "http://192.168.1.2:53317/upload");
}
