use thru::config::{handle_set_alias, handle_set_ip, handle_set_user, Config};
use thru::history::{add_entry, clear_history, display_start, get_history_path, keep_history,
    next_entry_id, transfer_entry, DeviceInfo, FileInfo, HistoryEntry};

fn entry(id: u64) -> HistoryEntry {
    HistoryEntry {
        id,
        entry_type: "send".into(),
        timestamp: "2026-03-25T14:30:22+08:00".into(),
        device: DeviceInfo { name: "u".into(), alias: None, ip: "1.2.3.4".into() },
        file: FileInfo { name: format!("f{}", id), size: id, path: format!("/tmp/f{}", id) },
        status: "success".into(),
    }
}

fn ids(h: &[HistoryEntry]) -> Vec<u64> {
    h.iter().map(|e| e.id).collect()
}

#[test]
fn keep_keeps_most_recent() {
    let mut h: Vec<HistoryEntry> = (1..=5).map(entry).collect();
    assert!(keep_history(&mut h, 2));
    assert_eq!(ids(&h), vec![4, 5]);
    assert!(!keep_history(&mut h, 2));
    assert_eq!(ids(&h), vec![4, 5]);
    assert!(!keep_history(&mut h, 10));
    assert_eq!(ids(&h), vec![4, 5]);
    assert!(keep_history(&mut h, 0));
    assert!(h.is_empty());
}

#[test]
fn keep_twice_is_keep_of_smaller() {
    let mut a: Vec<HistoryEntry> = (1..=6).map(entry).collect();
    keep_history(&mut a, 4);
    keep_history(&mut a, 2);
    let mut b: Vec<HistoryEntry> = (1..=6).map(entry).collect();
    keep_history(&mut b, 2);
    assert_eq!(ids(&a), ids(&b));
}

#[test]
fn clear_and_add() {
    let mut h: Vec<HistoryEntry> = (1..=3).map(entry).collect();
    clear_history(&mut h);
    assert!(h.is_empty());
    assert_eq!(next_entry_id(&h), 1);
    add_entry(&mut h, entry(1));
    assert_eq!(next_entry_id(&h), 2);
    add_entry(&mut h, entry(2));
    keep_history(&mut h, 1);
    assert_eq!(ids(&h), vec![2]);
}

#[test]
fn transfer_entry_names_the_phone() {
    let mut c = Config::default();
    handle_set_ip(&mut c, "100.118.195.54");
    handle_set_user(&mut c, "u0_a406");
    let e = transfer_entry(&c, 3, "pull", "t".into(), "a.jpg".into(), 10, "a.jpg".into());
    assert_eq!(e.id, 3);
    assert_eq!(e.entry_type, "pull");
    assert_eq!(e.device.name, "u0_a406");
    assert_eq!(e.device.alias, None);
    assert_eq!(e.device.ip, "100.118.195.54");
    assert_eq!(e.status, "success");
    handle_set_alias(&mut c, "100.118.195.54", "我的小米15");
    let e = transfer_entry(&c, 4, "send", "t".into(), "b".into(), 0, "/x/b".into());
    assert_eq!(e.device.alias, Some("我的小米15".to_string()));
    assert_eq!(e.file.path, "/x/b");
}

#[test]
fn display_window() {
    assert_eq!(display_start(120, false), 70);
    assert_eq!(display_start(50, false), 0);
    assert_eq!(display_start(10, false), 0);
    assert_eq!(display_start(120, true), 0);
    assert_eq!(display_start(0, false), 0);
}

#[test]
fn history_path() {
    assert_eq!(get_history_path("/home/u/.thru", '/'), "/home/u/.thru/history.json");
}
