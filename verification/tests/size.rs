use thru::size::{format_size, format_size_pull};

fn float_size(bytes: u64) -> String {
    if bytes < 1024 {
        format!("{} B", bytes)
    } else if bytes < 1024 * 1024 {
        format!("{:.1} KB", bytes as f64 / 1024.0)
    } else {
        format!("{:.1} MB", bytes as f64 / (1024.0 * 1024.0))
    }
}

fn float_size_pull(size: u64) -> String {
    const KB: u64 = 1024;
    const MB: u64 = KB * 1024;
    const GB: u64 = MB * 1024;
    if size >= GB {
        format!("{:.1} GB", size as f64 / GB as f64)
    } else if size >= MB {
        format!("{:.1} MB", size as f64 / MB as f64)
    } else if size >= KB {
        format!("{:.1} KB", size as f64 / KB as f64)
    } else {
        format!("{} B", size)
    }
}

fn samples() -> Vec<u64> {
    let mut v = vec![0, 1, 1023, 1024, 1025, 1280, 1331, 1536, 1126, 10240, 1048575, 1048576, 1310720,
        1363148, 2411724, 1073741823, 1073741824, 1342177280, (1 << 53) - 1, 1 << 53, (1 << 53) + 1,
        (1 << 53) + 3, (1 << 54) + 2, (1 << 54) + 6, u64::MAX, u64::MAX - 1, u64::MAX - 2048,
        u64::MAX - 1024, 9_999_999_999_999_999_999];
    let mut x: u64 = 0x2545_F491_4F6C_DD1D;
    for _ in 0..20000 {
        x ^= x << 13;
        x ^= x >> 7;
        x ^= x << 17;
        v.push(x >> (x % 64));
        v.push(x % 5_000_000);
    }
    v
}

#[test]
fn small_sizes_are_bytes() {
    assert_eq!(format_size(0), "0 B");
    assert_eq!(format_size(1023), "1023 B");
    assert_eq!(format_size_pull(512), "512 B");
}

#[test]
fn sizes_have_one_decimal() {
    assert_eq!(format_size(1024), "1.0 KB");
    assert_eq!(format_size(1536), "1.5 KB");
    assert_eq!(format_size(2411724), "2.3 MB");
    assert_eq!(format_size(1048575), "1024.0 KB");
    assert_eq!(format_size_pull(1342177280), "1.2 GB");
    assert_eq!(format_size_pull(1073741824), "1.0 GB");
}

#[test]
fn sizes_match_f64_formatting() {
    for b in samples() {
        assert_eq!(format_size(b), float_size(b), "{}", b);
        assert_eq!(format_size_pull(b), float_size_pull(b), "{}", b);
    }
}

#[test]
fn pull_and_history_sizes_agree_below_a_gibibyte() {
    for b in [0u64, 1023, 1024, 1280, 1048575, 1048576, 2411724, 1073741823] {
        assert_eq!(format_size(b), format_size_pull(b));
    }
    assert_ne!(format_size(1073741824), format_size_pull(1073741824));
}
