use sokoterm::utils::byte_count_to_string_with_binary_prefix;

/// The same text computed with floating-point numbers.
fn with_floats(byte_count: u64) -> String {
    const BINARY_PREFIXES: [&str; 4] = ["", "Ki", "Mi", "Gi"];

    if byte_count < 1024 {
        return format!("{byte_count} B");
    }

    let mut byte_count_with_prefix = byte_count as f64;
    let mut prefix_index = 0;
    while byte_count_with_prefix as u64 >= 1024 && prefix_index + 1 < BINARY_PREFIXES.len() {
        byte_count_with_prefix /= 1024.0;

        prefix_index += 1;
    }

    format!("{:.2} {}B", byte_count_with_prefix, BINARY_PREFIXES[prefix_index])
}

#[test]
fn byte_counts_with_binary_prefixes() {
    assert_eq!(byte_count_to_string_with_binary_prefix(0), "0 B");
    assert_eq!(byte_count_to_string_with_binary_prefix(1023), "1023 B");
    assert_eq!(byte_count_to_string_with_binary_prefix(1024), "1.00 KiB");
    assert_eq!(byte_count_to_string_with_binary_prefix(1536), "1.50 KiB");
    assert_eq!(byte_count_to_string_with_binary_prefix(1048575), "1024.00 KiB");
    assert_eq!(byte_count_to_string_with_binary_prefix(1048576), "1.00 MiB");
    assert_eq!(byte_count_to_string_with_binary_prefix(5 * 1073741824), "5.00 GiB");
    assert_eq!(byte_count_to_string_with_binary_prefix(u64::MAX), "17179869184.00 GiB");
}

#[test]
fn byte_counts_agree_with_floating_point() {
    let mut values: Vec<u64> = Vec::new();
    for n in 0..70_000u64 {
        values.push(n);
    }
    for shift in 10..64 {
        let base = 1u64 << shift;
        for delta in 0..64u64 {
            values.push(base.wrapping_add(delta));
            values.push(base.wrapping_sub(delta));
            values.push(base.wrapping_add(delta * 1337));
        }
    }
    let mut x: u64 = 0x9E37_79B9_7F4A_7C15;
    for _ in 0..200_000 {
        x ^= x << 13;
        x ^= x >> 7;
        x ^= x << 17;
        values.push(x >> (x % 60));
    }
    for v in values {
        assert_eq!(byte_count_to_string_with_binary_prefix(v), with_floats(v), "{v}");
    }
}
