use server_setup::fetch::FetchProgress;
use server_setup::progress::{hundredths_of, progress_text};

#[test]
fn whole_mebibytes() {
    let p = FetchProgress { bytes_transferred: 1048576, bytes_total: 2097152 };
    assert_eq!(progress_text(p), "1.00 MB / 2.00 MB");
}

#[test]
fn zero_bytes() {
    let p = FetchProgress { bytes_transferred: 0, bytes_total: 524288 };
    assert_eq!(progress_text(p), "0.00 MB / 0.50 MB");
}

#[test]
fn ties_round_to_even() {
    assert_eq!(hundredths_of(131072), 12);
    assert_eq!(hundredths_of(393216), 38);
}

#[test]
fn matches_float_formatting() {
    for b in [0u64, 1, 5242, 10485, 10486, 131072, 393216, 1048575, 52428800, 123456789, 987654321012] {
        let expected = format!("{:.2} MB / {:.2} MB", b as f64 / 1_048_576.0, 3_000_000u64 as f64 / 1_048_576.0);
        let p = FetchProgress { bytes_transferred: b, bytes_total: 3_000_000 };
        assert_eq!(progress_text(p), expected, "bytes {}", b);
    }
}

#[test]
fn largest_count() {
    let p = FetchProgress { bytes_transferred: u64::MAX, bytes_total: u64::MAX };
    let expected = format!("{:.2} MB", u64::MAX as f64 / 1_048_576.0);
    assert!(progress_text(p).starts_with("17592186044416.00 MB"));
    assert_eq!(expected, "17592186044416.00 MB");
}
