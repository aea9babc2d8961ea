use qfinder::cache::{cache_key_for, djb2_hash};
use qfinder::numfmt::{decimal_chars, hex_chars, human_bytes};
use qfinder::preview::{over_limit, too_large, PreviewPayload, PDF_LIMIT, PPTX_LIMIT};

/// The byte count written the way a desktop file manager does it with
/// floating point: divide by 1024 while at least 1024, up to TB, and print
/// two decimals.
fn float_reference(n: u64) -> String {
    let units = ["B", "KB", "MB", "GB", "TB"];
    let mut v = n as f64;
    let mut i = 0;
    while v >= 1024.0 && i < units.len() - 1 {
        v /= 1024.0;
        i += 1;
    }
    if i == 0 {
        format!("{} {}", n, units[0])
    } else {
        format!("{:.2} {}", v, units[i])
    }
}

#[test]
fn human_bytes_small_counts_are_exact() {
    assert_eq!(human_bytes(0), "0 B");
    assert_eq!(human_bytes(1), "1 B");
    assert_eq!(human_bytes(1023), "1023 B");
}

#[test]
fn human_bytes_units() {
    assert_eq!(human_bytes(1024), "1.00 KB");
    assert_eq!(human_bytes(1536), "1.50 KB");
    assert_eq!(human_bytes(20 * 1024 * 1024), "20.00 MB");
    assert_eq!(human_bytes(100 * 1024 * 1024), "100.00 MB");
    assert_eq!(human_bytes(150 * 1024 * 1024), "150.00 MB");
    assert_eq!(human_bytes(3 * 1024 * 1024 * 1024), "3.00 GB");
    assert_eq!(human_bytes(5 * 1024u64.pow(4)), "5.00 TB");
    assert_eq!(human_bytes(2048 * 1024u64.pow(4)), "2048.00 TB");
}

#[test]
fn human_bytes_rounds_a_tie_to_even() {
    // 1152 / 1024 = 1.125 exactly: the tie goes to the even hundredth.
    assert_eq!(human_bytes(1152), "1.12 KB");
    // 1408 / 1024 = 1.375 exactly.
    assert_eq!(human_bytes(1408), "1.38 KB");
    assert_eq!(human_bytes(1152), float_reference(1152));
    assert_eq!(human_bytes(1408), float_reference(1408));
}

#[test]
fn human_bytes_agrees_with_float_formatting() {
    let mut samples: Vec<u64> = vec![
        1023,
        1024,
        1025,
        1535,
        1048575,
        1048576,
        1073741823,
        1073741824,
        (1u64 << 53) - 1,
        1u64 << 53,
        (1u64 << 53) + 1,
        (1u64 << 53) + 3,
        (1u64 << 60) + 12345,
        u64::MAX - 1,
        u64::MAX,
    ];
    let mut x: u64 = 0x9E37_79B9_7F4A_7C15;
    for _ in 0..4000 {
        x ^= x << 13;
        x ^= x >> 7;
        x ^= x << 17;
        samples.push(x >> (x % 64));
    }
    for k in 1..200u64 {
        samples.push(k * 1024 + k * 5);
        samples.push(k * 1024 * 1024 + 5243 * k);
    }
    for n in samples {
        assert_eq!(human_bytes(n), float_reference(n), "n = {}", n);
    }
}

#[test]
fn digits_in_both_bases() {
    let s: String = decimal_chars(0).into_iter().collect();
    assert_eq!(s, "0");
    let s: String = decimal_chars(1234567890).into_iter().collect();
    assert_eq!(s, "1234567890");
    let s: String = hex_chars(255).into_iter().collect();
    assert_eq!(s, "ff");
    let s: String = hex_chars(u64::MAX).into_iter().collect();
    assert_eq!(s, format!("{:x}", u64::MAX));
}

#[test]
fn djb2_values() {
    assert_eq!(djb2_hash(b""), 5381);
    assert_eq!(djb2_hash(b"a"), 5381 * 33 + 97);
    assert_eq!(djb2_hash(b"ab"), (5381 * 33 + 97) * 33 + 98);
    let mut h: u64 = 5381;
    let long = "/Users/someone/Documents/一份很长的演示文稿.pptx".repeat(20);
    for b in long.as_bytes() {
        h = h.wrapping_mul(33).wrapping_add(*b as u64);
    }
    assert_eq!(djb2_hash(long.as_bytes()), h);
}

#[test]
fn cache_key_joins_hash_time_and_size() {
    let path = "/tmp/deck.pptx";
    let expected = format!("{:x}-{}-{}", djb2_hash(path.as_bytes()), 1700000000u64, 4096u64);
    assert_eq!(cache_key_for(path, 1700000000, 4096), expected);
    assert_eq!(cache_key_for("", 0, 0), "1505-0-0");
}

#[test]
fn too_large_names_both_sizes() {
    match too_large(150 * 1024 * 1024, PDF_LIMIT, "PDF") {
        PreviewPayload::Unsupported { reason, size } => {
            assert_eq!(reason, "文件过大（157286400），跳过预览");
            assert_eq!(size, 150 * 1024 * 1024);
        }
        other => panic!("unexpected {:?}", other),
    }
    assert!(over_limit(PPTX_LIMIT, PPTX_LIMIT, "PPTX").is_none());
    match over_limit(PPTX_LIMIT + 1, PPTX_LIMIT, "PPTX") {
        Some(PreviewPayload::Unsupported { reason, .. }) => {
            assert_eq!(reason, "文件过大（52428801），跳过预览")
        }
        other => panic!("unexpected {:?}", other),
    }
}
