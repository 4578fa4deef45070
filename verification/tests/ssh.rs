use thru::ssh::{authorized_keys_command, get_key_info, get_key_path, get_pub_key_path, handle_start,
    handle_stop, keygen_action, keygen_command, service_query_command, KeygenAction, SshStatus};

#[test]
fn key_paths() {
    assert_eq!(get_key_path("/home/u/.thru", '/'), "/home/u/.thru/id_ed25519");
    assert_eq!(get_pub_key_path("/home/u/.thru", '/'), "/home/u/.thru/id_ed25519.pub");
}

#[test]
fn key_info() {
    let i = get_key_info("/h/.thru", '/', true, Some("ssh-ed25519 AAAA thru@pc\n"));
    assert_eq!(i.private_key, "/h/.thru/id_ed25519");
    assert_eq!(i.public_key, "/h/.thru/id_ed25519.pub");
    assert_eq!(i.public_key_content, "ssh-ed25519 AAAA thru@pc");
    assert!(i.exists);
    let i = get_key_info("/h/.thru", '/', true, None);
    assert_eq!(i.public_key_content, "");
    let i = get_key_info("/h/.thru", '/', false, Some("k"));
    assert_eq!(i.public_key_content, "");
    assert!(!i.exists);
}

#[test]
fn keygen_decision() {
    assert_eq!(keygen_action(true, false, None), KeygenAction::ReportExisting);
    assert_eq!(keygen_action(true, false, Some("n\n")), KeygenAction::ReportExisting);
    assert_eq!(keygen_action(true, false, Some("y\n")), KeygenAction::RemoveThenGenerate);
    assert_eq!(keygen_action(true, true, None), KeygenAction::RemoveThenGenerate);
    assert_eq!(keygen_action(false, true, None), KeygenAction::Generate);
    assert_eq!(keygen_action(false, false, Some("y")), KeygenAction::Generate);
}

#[test]
fn keygen_command_line() {
    let c = keygen_command("/h/.thru/id_ed25519");
    assert_eq!(c.program, "ssh-keygen");
    assert_eq!(c.args, vec!["-t", "ed25519", "-f", "/h/.thru/id_ed25519", "-N", "", "-C", "thru@pc"]);
}

#[test]
fn key_copy_command() {
    assert_eq!(authorized_keys_command("ssh-ed25519 AAAA thru@pc"),
        "echo \"ssh-ed25519 AAAA thru@pc\" >> ~/.ssh/authorized_keys");
}

#[test]
fn service_commands() {
    let s = handle_start();
    assert_eq!(s.program, "powershell");
    assert_eq!(s.args, vec!["-Command", "Start-Service sshd"]);
    assert_eq!(handle_stop().args, vec!["-Command", "Stop-Service sshd"]);
    assert_eq!(service_query_command().args,
        vec!["-Command", "Get-Service sshd | Select-Object -ExpandProperty Status"]);
}

#[test]
fn service_state_from_output() {
    let s = SshStatus::from_service_output("Running\r\n");
    assert!(s.running);
    assert_eq!(s.port, 22);
    assert!(!SshStatus::from_service_output("Stopped\r\n").running);
    assert!(!SshStatus::from_service_output("").running);
    assert!(SshStatus::from_service_output("  RUNNING ").running);
}
