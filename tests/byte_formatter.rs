use image_optimizer::byte_formatter::format_bytes;

#[test]
fn test_format_bytes() {
    assert_eq!(format_bytes(0), "0 B");
    assert_eq!(format_bytes(512), "512 B");
    assert_eq!(format_bytes(1023), "1023 B");
    assert_eq!(format_bytes(1024), "1.0 KB");
    assert_eq!(format_bytes(1536), "1.5 KB");
    assert_eq!(format_bytes(1048576), "1.0 MB");
    assert_eq!(format_bytes(1073741824), "1.0 GB");
    assert_eq!(format_bytes(2147483648), "2.0 GB");
}

#[test]
fn test_format_bytes_edge_cases() {
    assert_eq!(format_bytes(u64::MAX), "17179869184.0 GB");
    assert_eq!(format_bytes(1), "1 B");
    assert_eq!(format_bytes(1025), "1.0 KB");
}

#[test]
fn test_byte_formatter_integration() {
    assert_eq!(format_bytes(1024), "1.0 KB");
    assert_eq!(format_bytes(0), "0 B");
}

fn float_reference(bytes: u64) -> String {
    let units = ["B", "KB", "MB", "GB"];
    let mut size = bytes as f64;
    let mut unit = 0;
    while size >= 1024.0 && unit < units.len() - 1 {
        size /= 1024.0;
        unit += 1;
    }
    if unit == 0 {
        format!("{} {}", bytes, units[unit])
    } else {
        format!("{:.1} {}", size, units[unit])
    }
}

#[test]
fn exact_halves_round_to_even_tenth() {
    assert_eq!(format_bytes(1280), "1.2 KB");
    assert_eq!(format_bytes(1433), "1.4 KB");
    assert_eq!(format_bytes(1075), "1.0 KB");
    assert_eq!(format_bytes(3 * 1048576 + 786432), "3.8 MB");
}

#[test]
fn agrees_with_float_formatting() {
    let mut b: u64 = 0;
    while b < 300_000 {
        assert_eq!(format_bytes(b), float_reference(b), "bytes = {}", b);
        b += 1;
    }
    for b in [1048575u64, 1048576, 1572864, 1073741823, 1073741824, 5_000_000_000, 1u64 << 40] {
        assert_eq!(format_bytes(b), float_reference(b), "bytes = {}", b);
    }
}

#[test]
fn unit_boundaries() {
    assert_eq!(format_bytes(1048575), "1024.0 KB");
    assert_eq!(format_bytes(1073741823), "1024.0 MB");
    assert_eq!(format_bytes(1u64 << 40), "1024.0 GB");
}
