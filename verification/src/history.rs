//! The transfer history kept in `~/.thru/history.json`: its entries, and the
//! edits that recording a transfer, `history --clear` and `history --keep`
//! make to it.
use vstd::prelude::*;
use crate::config::{Config, join_path, join_spec};

verus! {

/// How many entries `history` shows unless asked for all.
pub const HISTORY_PAGE: usize = 50;

/// The device of a transfer.
pub struct DeviceInfo {
    pub name: String,
    pub alias: Option<String>,
    pub ip: String,
}

/// The file of a transfer.
pub struct FileInfo {
    pub name: String,
    pub size: u64,
    pub path: String,
}

/// One recorded transfer. The time stamp is the RFC 3339 text of the local
/// time at which it was recorded.
pub struct HistoryEntry {
    pub id: u64,
    pub entry_type: String,
    pub timestamp: String,
    pub device: DeviceInfo,
    pub file: FileInfo,
    pub status: String,
}

/// The history file inside the configuration directory.
pub fn get_history_path(config_dir: &str, main: char) -> (r: String)
    requires
        main == '/' || main == '\\',
    ensures
        r@ == join_spec(config_dir@, "history.json"@, main),
{
    join_path(config_dir, "history.json", main)
}

/// Records one more entry at the end of the history.
pub fn add_entry(history: &mut Vec<HistoryEntry>, entry: HistoryEntry)
    ensures
        final(history)@ == old(history)@.push(entry),
{
    history.push(entry);
}

/// Empties the history.
pub fn clear_history(history: &mut Vec<HistoryEntry>)
    ensures
        final(history)@ == Seq::<HistoryEntry>::empty(),
{
    history.clear();
}

/// The history after keeping only its `n` most recent entries.
pub open spec fn kept_spec(h: Seq<HistoryEntry>, n: nat) -> Seq<HistoryEntry> {
    if h.len() > n {
        h.skip(h.len() - n)
    } else {
        h
    }
}

/// Keeps only the `n` most recent entries; returns whether any entry was
/// dropped (the history file is rewritten only then).
pub fn keep_history(history: &mut Vec<HistoryEntry>, n: usize) -> (trimmed: bool)
    ensures
        final(history)@ == kept_spec(old(history)@, n as nat),
        trimmed == (old(history)@.len() > n),
{
    let len = history.len();
    if len > n {
        let tail = history.split_off(len - n);
        *history = tail;
        assert(history@ =~= kept_spec(old(history)@, n as nat));
        true
    } else {
        false
    }
}

/// Law: keeping the `n` most recent entries leaves `min(n, len)` entries,
/// which are the last ones of the history in their order.
pub proof fn law_keep_is_recent_suffix(h: Seq<HistoryEntry>, n: nat)
    ensures
        kept_spec(h, n).len() == if h.len() > n {
            n
        } else {
            h.len()
        },
        forall|i: int|
            0 <= i < kept_spec(h, n).len() ==> #[trigger] kept_spec(h, n)[i] == h[h.len()
                - kept_spec(h, n).len() + i],
{
}

/// Law: keeping the `n` most recent entries twice is keeping them once.
pub proof fn law_keep_idempotent(h: Seq<HistoryEntry>, n: nat)
    ensures
        kept_spec(kept_spec(h, n), n) == kept_spec(h, n),
{
}

/// Law: keeping `n` and then `m` entries is keeping `min(n, m)` entries.
pub proof fn law_keep_compose(h: Seq<HistoryEntry>, n: nat, m: nat)
    ensures
        kept_spec(kept_spec(h, n), m) == kept_spec(
            h,
            if n <= m {
                n
            } else {
                m
            },
        ),
{
    if h.len() > n && n > m {
        assert(h.skip(h.len() - n).skip(n - m) =~= h.skip(h.len() - m));
    }
}

/// Law: a recorded entry survives any `--keep` of at least one entry, as the
/// most recent one.
pub proof fn law_recorded_entry_is_kept(h: Seq<HistoryEntry>, e: HistoryEntry, n: nat)
    requires
        n >= 1,
    ensures
        kept_spec(h.push(e), n).len() >= 1,
        kept_spec(h.push(e), n).last() == e,
{
}

/// The number given to the next recorded entry: one more than the number
/// of entries.
pub fn next_entry_id(history: &Vec<HistoryEntry>) -> (id: u64)
    requires
        history@.len() < u64::MAX,
    ensures
        id == history@.len() + 1,
{
    history.len() as u64 + 1
}

/// The entry recording a successful transfer with the configured phone:
/// the device is named by its SSH user and carries its alias, if any.
pub fn transfer_entry(
    config: &Config,
    id: u64,
    entry_type: &str,
    timestamp: String,
    file_name: String,
    file_size: u64,
    file_path: String,
) -> (e: HistoryEntry)
    ensures
        e.id == id,
        e.entry_type@ == entry_type@,
        e.timestamp == timestamp,
        e.device.name@ == config.device.phone_user@,
        e.device.ip@ == config.device.phone_ip@,
        match e.device.alias {
            Some(a) => config.aliases@.contains_key(config.device.phone_ip@) && a@
                == config.aliases@[config.device.phone_ip@],
            None => !config.aliases@.contains_key(config.device.phone_ip@),
        },
        e.file.name == file_name,
        e.file.size == file_size,
        e.file.path == file_path,
        e.status@ == "success"@,
{
    HistoryEntry {
        id,
        entry_type: String::from_str(entry_type),
        timestamp,
        device: DeviceInfo {
            name: config.device.phone_user.clone(),
            alias: config.aliases.get(config.device.phone_ip.as_str()),
            ip: config.device.phone_ip.clone(),
        },
        file: FileInfo { name: file_name, size: file_size, path: file_path },
        status: String::from_str("success"),
    }
}

/// Where `history` starts showing entries: all of them, or the last 50.
pub fn display_start(len: usize, show_all: bool) -> (start: usize)
    ensures
        show_all ==> start == 0,
        !show_all ==> start == if len > HISTORY_PAGE {
            len - HISTORY_PAGE
        } else {
            0
        },
{
    let count = if show_all {
        len
    } else if len < HISTORY_PAGE {
        len
    } else {
        HISTORY_PAGE
    };
    len - count
}

} // verus!
