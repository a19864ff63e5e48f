use jax::hexdump::to_hex_dump;
use jax::size::format_size;

fn expected_size(size: u64) -> String {
    const KB: u64 = 1024;
    const MB: u64 = KB * 1024;
    const GB: u64 = MB * 1024;
    if size >= GB {
        format!("{:.2} GB", size as f64 / GB as f64)
    } else if size >= MB {
        format!("{:.2} MB", size as f64 / MB as f64)
    } else if size >= KB {
        format!("{:.2} KB", size as f64 / KB as f64)
    } else {
        format!("{} B", size)
    }
}

fn expected_dump(data: &[u8], max_bytes: usize) -> String {
    let bytes_to_show = data.len().min(max_bytes);
    let mut result = String::new();
    for (i, chunk) in data[..bytes_to_show].chunks(16).enumerate() {
        result.push_str(&format!("{:08x}  ", i * 16));
        for (j, byte) in chunk.iter().enumerate() {
            result.push_str(&format!("{:02x} ", byte));
            if j == 7 {
                result.push(' ');
            }
        }
        for j in chunk.len()..16 {
            result.push_str("   ");
            if j == 7 {
                result.push(' ');
            }
        }
        result.push(' ');
        for byte in chunk {
            if *byte >= 32 && *byte < 127 {
                result.push(*byte as char);
            } else {
                result.push('.');
            }
        }
        result.push('\n');
    }
    if data.len() > max_bytes {
        result.push_str(&format!("\n... ({} more bytes)\n", data.len() - max_bytes));
    }
    result
}

#[test]
fn format_size_exact_values() {
    assert_eq!(format_size(0), "0 B");
    assert_eq!(format_size(1023), "1023 B");
    assert_eq!(format_size(1024), "1.00 KB");
    assert_eq!(format_size(1536), "1.50 KB");
    assert_eq!(format_size(1024 * 1024), "1.00 MB");
    assert_eq!(format_size(5 * 1024 * 1024 * 1024), "5.00 GB");
}

#[test]
fn format_size_rounds_like_float_formatting() {
    let mut samples: Vec<u64> = Vec::new();
    for s in 0..5000u64 {
        samples.push(s);
    }
    for s in [
        1029, 1034, 1039, 1044, 1049, 1152, 1160, 1167, 10245, 10250, 20485, 1048575, 1048576,
        1053818, 1054867, 1073741823, 1073741824, 1078110470, 1084479242,
    ] {
        samples.push(s);
    }
    let mut x: u64 = 0x9E37_79B9_7F4A_7C15;
    for _ in 0..20000 {
        x ^= x << 13;
        x ^= x >> 7;
        x ^= x << 17;
        samples.push(x >> (x % 64));
    }
    samples.push(u64::MAX);
    samples.push(u64::MAX - 1);
    samples.push(1 << 53);
    samples.push((1 << 53) + 1);
    samples.push((1 << 60) + 12345);
    for s in samples {
        assert_eq!(format_size(s), expected_size(s), "size {}", s);
    }
}

#[test]
fn hex_dump_matches_layout() {
    assert_eq!(to_hex_dump(b"", 1024), "");
    assert_eq!(
        to_hex_dump(b"Hello", 1024),
        "00000000  48 65 6c 6c 6f                                    Hello\n"
    );
    let data: Vec<u8> = (0u8..=255).collect();
    for max in [0usize, 1, 7, 8, 15, 16, 17, 31, 32, 100, 255, 256, 1024] {
        for len in [0usize, 1, 8, 9, 16, 17, 33, 200, 256] {
            let d = &data[..len];
            assert_eq!(to_hex_dump(d, max), expected_dump(d, max), "len {} max {}", len, max);
        }
    }
}

#[test]
fn hex_dump_truncates_with_trailer() {
    let data = vec![0x41u8; 20];
    let out = to_hex_dump(&data, 16);
    assert!(out.ends_with("\n... (4 more bytes)\n"));
    assert_eq!(out.lines().next().unwrap().len(), 8 + 2 + 16 * 3 + 1 + 1 + 16);
}
