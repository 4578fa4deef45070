use thru::config::{handle_init, Config};
use thru::list::{is_listed, tilde_relative, total_size};
use thru::pull::{get_local_dir, handle_pull, parse_remote_listing, remote_file_names, FileInfo, ListResult,
    LocalDir, PullAction, PullError, PullResult, RemoteListing};

fn files(r: Option<RemoteListing>) -> ListResult {
    match r {
        Some(RemoteListing::Files(l)) => l,
        Some(RemoteListing::Unavailable) => panic!("unavailable"),
        None => panic!("overflow"),
    }
}

fn unavailable(r: Option<RemoteListing>) -> bool {
    matches!(r, Some(RemoteListing::Unavailable))
}
use thru::send::{after_lan_failure, handle_send, parse_lan_address, LanFailure, pick_device, select_device, DeviceChoice, SelectError,
    SendPlan, TransferMethod};
use thru::discovery::DeviceInfo;
use thru::transfer::{list_command, mkdir_args, names_command, scp_pull_args, scp_send_args,
    ssh_command_args};

fn phone() -> Config {
    handle_init("100.118.195.54".into(), 8022, "u0_a406".into()).unwrap()
}

#[test]
fn pull_decisions() {
    let none = Config::default();
    assert_eq!(handle_pull(&none, Some("a".into()), true, true), Err(PullError::NotConfigured));
    let c = phone();
    assert_eq!(handle_pull(&c, Some("a".into()), true, true), Ok(PullAction::List));
    assert_eq!(handle_pull(&c, Some("a".into()), false, true), Ok(PullAction::All));
    assert_eq!(handle_pull(&c, Some("a".into()), false, false), Ok(PullAction::Single("a".into())));
    assert_eq!(handle_pull(&c, None, false, false), Err(PullError::NothingToPull));
}

#[test]
fn local_dir() {
    let c = phone();
    assert_eq!(get_local_dir(&c, None), LocalDir::UnderHome("Downloads/Thru".into()));
    assert_eq!(get_local_dir(&c, Some("/tmp/x")), LocalDir::AsGiven("/tmp/x".into()));
    assert_eq!(get_local_dir(&c, Some("~x/y")), LocalDir::UnderHome("/y".into()));
}

#[test]
fn remote_listing() {
    let out = "total 5356\n\
drwxrwx--- 2 u0_a406 u0_a406 3452 2026-03-26T10:30:00Z .\n\
drwxrwx--- 9 u0_a406 u0_a406 3452 2026-03-20T09:00:00Z ..\n\
-rw-rw---- 1 u0_a406 u0_a406 2411724 2026-03-26T10:30:00Z photo.jpg\n\
-rw-rw---- 1 u0_a406 u0_a406 3072000 2026-03-25T15:20:00Z document.pdf\n\
weird line\n";
    let l = files(parse_remote_listing(out, true));
    assert_eq!(l.total, 2);
    assert_eq!(l.total_size, 5483724);
    assert_eq!(l.files[0].name, "photo.jpg");
    assert_eq!(l.files[0].size, 2411724);
    assert_eq!(l.files[0].modified, "2026-03-26T10:30:00Z");
    assert_eq!(l.files[1].name, "document.pdf");
    assert_eq!(l.files[1].size, 3072000);
    assert_eq!(l.files[1].modified, "2026-03-25T15:20:00Z");
}

#[test]
fn remote_listing_keeps_spaces_in_names() {
    let out = "total 8\n-rw-rw---- 1 u u 12 2026-03-26T08:01:00Z my  holiday photo.jpg\n";
    let l = files(parse_remote_listing(out, true));
    assert_eq!(l.total, 1);
    assert_eq!(l.files[0].name, "my  holiday photo.jpg");
    assert_eq!(l.files[0].modified, "2026-03-26T08:01:00Z");
}

#[test]
fn remote_listing_empty_or_failed() {
    assert!(unavailable(parse_remote_listing("EMPTY\n", true)));
    assert!(unavailable(parse_remote_listing("total 0\n-rw 1 a b 5 2026-03-01T10:00:00Z x\n", false)));
    let l = files(parse_remote_listing("", true));
    assert_eq!((l.total, l.total_size, l.files.len()), (0, 0, 0));
    let l = files(parse_remote_listing("total 0\n", true));
    assert_eq!(l.total, 0);
}

#[test]
fn remote_listing_bad_size_counts_zero_and_overflow_is_refused() {
    let l = files(parse_remote_listing("total\n-rw 1 a b big 2026-03-01T10:00:00Z x\n", true));
    assert_eq!(l.files[0].size, 0);
    let out = "total\n-rw 1 a b 18446744073709551615 2026-03-01T10:00:00Z x\n-rw 1 a b 1 2026-03-01T10:00:00Z y\n";
    assert!(parse_remote_listing(out, true).is_none());
}

#[test]
fn remote_names() {
    assert_eq!(remote_file_names("a.jpg\n\nb.txt\r\n"), vec!["a.jpg", "b.txt"]);
    assert!(remote_file_names("").is_empty());
}

#[test]
fn pull_results() {
    let r = PullResult::failed();
    assert!(!r.success);
    assert_eq!(r.error, Some("pull_failed".to_string()));
    let r = PullResult::pulled(FileInfo { name: "a".into(), local_path: "/d/a".into(), size: 3 });
    assert!(r.success && r.error.is_none());
    assert_eq!(r.file.unwrap().size, 3);
}

#[test]
fn ssh_argument_lists() {
    let c = phone();
    assert_eq!(mkdir_args(&c, Some("/k")), vec!["-i", "/k", "-p", "8022", "u0_a406@100.118.195.54",
        "mkdir -p ~/storage/downloads/Thru/"]);
    assert_eq!(mkdir_args(&c, None), vec!["-p", "8022", "u0_a406@100.118.195.54",
        "mkdir -p ~/storage/downloads/Thru/"]);
    assert_eq!(scp_send_args(&c, Some("/k"), true, "dir"), vec!["-P", "8022", "-i", "/k", "-r", "dir",
        "u0_a406@100.118.195.54:~/storage/downloads/Thru/"]);
    assert_eq!(scp_send_args(&c, None, false, "a.txt"), vec!["-P", "8022", "a.txt",
        "u0_a406@100.118.195.54:~/storage/downloads/Thru/"]);
    assert_eq!(ssh_command_args(&c, None, &names_command()), vec!["-p", "8022", "u0_a406@100.118.195.54",
        "ls ~/storage/downloads/Thru/ 2>/dev/null"]);
    assert_eq!(list_command(),
        "TZ=UTC ls -la --time-style=+%Y-%m-%dT%H:%M:%SZ ~/storage/downloads/Thru/ 2>/dev/null || echo 'EMPTY'");
    assert_eq!(scp_pull_args(&c, Some("/k"), "a.jpg", "/d/a.jpg"), vec!["-P", "8022", "-i", "/k",
        "u0_a406@100.118.195.54:~/storage/downloads/Thru/a.jpg", "/d/a.jpg"]);
}

#[test]
fn lan_addresses() {
    assert_eq!(parse_lan_address("192.168.1.5:8080"), ("192.168.1.5".to_string(), 8080));
    assert_eq!(parse_lan_address("192.168.1.5"), ("192.168.1.5".to_string(), 53317));
    assert_eq!(parse_lan_address("1.2.3.4:abc"), ("1.2.3.4".to_string(), 53317));
    assert_eq!(parse_lan_address("1.2.3.4:70000"), ("1.2.3.4".to_string(), 53317));
    assert_eq!(parse_lan_address("1.2.3.4:80:90"), ("1.2.3.4".to_string(), 80));
}

#[test]
fn send_plans() {
    assert_eq!(handle_send(false, false, Some(Some("10.0.0.2:9000".into()))),
        SendPlan::Lan { target: Some(("10.0.0.2".into(), 9000)) });
    assert_eq!(handle_send(true, true, Some(None)), SendPlan::Lan { target: None });
    assert_eq!(handle_send(true, true, None), SendPlan::Ssh { method: TransferMethod::Rsync });
    assert_eq!(handle_send(false, true, None), SendPlan::Ssh { method: TransferMethod::Scp });
    assert_eq!(handle_send(false, false, None), SendPlan::Ssh { method: TransferMethod::Auto });
}

fn found(name: &str, ip: &str, port: u16) -> DeviceInfo {
    DeviceInfo { msg_type: "THRU_RESPONSE".into(), name: name.into(), ip: ip.into(), port,
        device_id: "d".into(), network: "lan".into() }
}

#[test]
fn device_selection() {
    assert_eq!(select_device(&vec![]), DeviceChoice::NoDevices);
    assert_eq!(select_device(&vec![found("a", "10.0.0.1", 1)]), DeviceChoice::Only("10.0.0.1".into(), 1));
    let two = vec![found("a", "10.0.0.1", 1), found("b", "10.0.0.2", 2)];
    assert_eq!(select_device(&two), DeviceChoice::Ask);
    assert_eq!(pick_device(&two, " 2\n"), Ok(("10.0.0.2".to_string(), 2)));
    assert_eq!(pick_device(&two, "1"), Ok(("10.0.0.1".to_string(), 1)));
    assert_eq!(pick_device(&two, "0"), Err(SelectError::OutOfRange));
    assert_eq!(pick_device(&two, "3"), Err(SelectError::OutOfRange));
    assert_eq!(pick_device(&two, "two"), Err(SelectError::InvalidChoice));
}

#[test]
fn local_listing_helpers() {
    assert_eq!(tilde_relative("~/Downloads/Thru"), Some("Downloads/Thru".to_string()));
    assert_eq!(tilde_relative("/tmp/x"), None);
    assert_eq!(tilde_relative("~x"), None);
    assert!(is_listed("a.txt", false));
    assert!(!is_listed(".hidden", false));
    assert!(is_listed(".hidden", true));
    assert_eq!(total_size(&vec![1, 2, 3]), Some(6));
    assert_eq!(total_size(&vec![]), Some(0));
    assert_eq!(total_size(&vec![u64::MAX, 1]), None);
}

#[test]
fn failed_http_upload_falls_back_to_scp() {
    let c = phone();
    assert_eq!(after_lan_failure(&c, false), LanFailure::FallBackToScp);
    assert_eq!(after_lan_failure(&c, true), LanFailure::Fail);
    assert_eq!(after_lan_failure(&Config::default(), false), LanFailure::Fail);
}
