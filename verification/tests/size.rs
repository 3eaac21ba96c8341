use smart_archive_rar::size::{signed_size_text, size_text, GIB, MIB};

#[test]
fn sizes_read_as_float_formatting_gives_them() {
    let units = [MIB, GIB];
    for unit in units {
        let mut n: u64 = 1;
        for i in 0..4000u64 {
            n = n.wrapping_mul(6364136223846793005).wrapping_add(i * 2 + 1);
            let shifts = [0u32, 3, 9, 20, 27, 31, 40, 55];
            for shift in shifts {
                let bytes = n >> shift;
                assert_eq!(size_text(bytes, unit), format!("{:.1}", bytes as f64 / unit as f64));
            }
        }
    }
}

#[test]
fn ties_go_to_the_even_tenth() {
    for quarters in 0..400u64 {
        let bytes = quarters * (GIB / 4);
        assert_eq!(size_text(bytes, GIB), format!("{:.1}", bytes as f64 / GIB as f64));
    }
    assert_eq!(size_text(GIB / 4, GIB), "0.2");
    assert_eq!(size_text(3 * (GIB / 4), GIB), "0.8");
}

#[test]
fn the_largest_counts_are_rounded_as_floats_are() {
    let edges = [0u64, 1, u64::MAX, u64::MAX - 1, 1 << 53, (1 << 53) + 1, (1 << 53) + 3, (1 << 63) - 1, (1 << 63) + 1024];
    for bytes in edges {
        for back in 0..1500u64 {
            let b = bytes.wrapping_sub(back);
            assert_eq!(size_text(b, MIB), format!("{:.1}", b as f64 / MIB as f64));
        }
    }
}

#[test]
fn signed_sizes_read_as_float_formatting_gives_them() {
    let mut n: i64 = 1;
    for i in 0..4000i64 {
        n = n.wrapping_mul(6364136223846793005).wrapping_add(i * 2 + 1);
        for shift in [0u32, 9, 20, 27, 40, 55] {
            let bytes = n >> shift;
            for unit in [MIB, GIB] {
                let expected = format!("{:.1}", bytes as f64 / unit as f64);
                assert_eq!(signed_size_text(bytes, unit), expected);
            }
        }
    }
    for bytes in [0, 1, -1, i64::MAX, i64::MIN, i64::MIN + 1] {
        assert_eq!(signed_size_text(bytes, MIB), format!("{:.1}", bytes as f64 / 1048576.0));
    }
}
