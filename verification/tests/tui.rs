use tur::tui::format_size;
use tur::tui::print_download_complete;
use tur::tui::print_download_error;
use tur::tui::print_download_start;

#[test]
fn test_format_size() {
    assert_eq!(format_size(500), "500 B");
    assert_eq!(format_size(1024), "1.00 KB");
    assert_eq!(format_size(1024 * 1024), "1.00 MB");
    assert_eq!(format_size(1024 * 1024 * 1024), "1.00 GB");
}

fn with_floats(bytes: u64) -> String {
    const KB: u64 = 1024;
    const MB: u64 = KB * 1024;
    const GB: u64 = MB * 1024;
    if bytes >= GB {
        format!("{:.2} GB", bytes as f64 / GB as f64)
    } else if bytes >= MB {
        format!("{:.2} MB", bytes as f64 / MB as f64)
    } else if bytes >= KB {
        format!("{:.2} KB", bytes as f64 / KB as f64)
    } else {
        format!("{} B", bytes)
    }
}

#[test]
fn format_size_rounds_to_nearest_hundredth() {
    assert_eq!(format_size(0), "0 B");
    assert_eq!(format_size(1023), "1023 B");
    assert_eq!(format_size(1536), "1.50 KB");
    assert_eq!(format_size(1029), "1.00 KB");
    assert_eq!(format_size(1030), "1.01 KB");
    assert_eq!(format_size(1048575), "1024.00 KB");
    assert_eq!(format_size(1073741823), "1024.00 MB");
    assert_eq!(format_size(5 * 1024 * 1024 * 1024 / 2), "2.50 GB");
    assert_eq!(format_size(u64::MAX), "17179869184.00 GB");
}

#[test]
fn format_size_rounds_ties_to_even() {
    // 1152 / 1024 = 1.125 and 1408 / 1024 = 1.375
    assert_eq!(format_size(1152), "1.12 KB");
    assert_eq!(format_size(1408), "1.38 KB");
}

#[test]
fn format_size_agrees_with_float_formatting() {
    let mut bytes: u64 = 1;
    let mut step: u64 = 1;
    while bytes < (1u64 << 52) {
        assert_eq!(format_size(bytes), with_floats(bytes), "{}", bytes);
        bytes += step;
        step = step * 3 / 2 + 1;
    }
    for bytes in 1000..70000u64 {
        assert_eq!(format_size(bytes), with_floats(bytes), "{}", bytes);
    }
    for k in 0..5000u64 {
        let bytes = 1152 + 128 * k;
        assert_eq!(format_size(bytes), with_floats(bytes), "{}", bytes);
        let bytes = 1048576 + 131072 * k + 5243;
        assert_eq!(format_size(bytes), with_floats(bytes), "{}", bytes);
    }
}

#[test]
fn download_lines() {
    assert_eq!(
        print_download_start("file.zip", Some(1536)),
        "📥 Starting: file.zip (1.50 KB)"
    );
    assert_eq!(print_download_start("file.zip", None), "📥 Starting: file.zip (unknown size)");
    assert_eq!(print_download_complete("file.zip", 12), "✅ Complete: file.zip in 12s");
    assert_eq!(print_download_error("file.zip", "HTTP 404"), "❌ Failed: file.zip - HTTP 404");
}
