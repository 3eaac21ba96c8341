use smart_archive_rar::{parse_dict_size, Status};

fn accepted(s: &str) -> (Option<u8>, Option<u64>) {
    match parse_dict_size(s) {
        Ok(size) => size,
        Err(e) => panic!("{s:?} was refused: {}", e.reason),
    }
}

fn refused(s: &str) -> String {
    match parse_dict_size(s) {
        Ok(size) => panic!("{s:?} was accepted: {size:?}"),
        Err(e) => {
            assert_eq!(e.status, Status::InvalidArg);
            e.reason
        }
    }
}

#[test]
fn powers_of_two_come_to_their_exponent() {
    assert_eq!(accepted("128k"), (Some(0), None));
    assert_eq!(accepted("256k"), (Some(1), None));
    assert_eq!(accepted("1m"), (Some(3), None));
    assert_eq!(accepted("32m"), (Some(8), None));
    assert_eq!(accepted("1g"), (Some(13), None));
    assert_eq!(accepted("4g"), (Some(15), None));
    for log in 0..16u8 {
        let kib = 128u64 << log;
        assert_eq!(accepted(&format!("{kib}k")), (Some(log), None));
    }
}

#[test]
fn sizes_over_4_gib_come_to_their_bytes() {
    assert_eq!(accepted("5g"), (None, Some(5 << 30)));
    assert_eq!(accepted("8g"), (None, Some(8 << 30)));
    assert_eq!(accepted("4194305k"), (None, Some((4 << 30) + 1024)));
    assert_eq!(accepted("4097"), (None, Some(4097 << 20)));
    assert_eq!(accepted("18014398509481983k"), (None, Some(18446744073709550592)));
}

#[test]
fn no_unit_means_mib() {
    for n in [1u64, 2, 64, 4096, 5000] {
        assert_eq!(accepted(&format!("{n}")), accepted(&format!("{n}m")));
    }
}

#[test]
fn unit_letters_have_either_case() {
    assert_eq!(accepted("128K"), accepted("128k"));
    assert_eq!(accepted("16M"), accepted("16m"));
    assert_eq!(accepted("7G"), accepted("7g"));
}

#[test]
fn white_space_around_a_size_is_cut_off() {
    assert_eq!(accepted(" 32m\t"), (Some(8), None));
    assert_eq!(accepted("\u{3000}32m\u{a0}\n"), (Some(8), None));
    assert_eq!(refused("  x  "), "invalid dictionary size: x");
}

#[test]
fn one_leading_plus_is_allowed() {
    assert_eq!(accepted("+1g"), (Some(13), None));
    assert_eq!(refused("++1g"), "invalid dictionary size: ++1g");
    assert_eq!(refused("-1g"), "invalid dictionary size: -1g");
}

#[test]
fn leading_zeros_do_not_matter() {
    assert_eq!(accepted("000000000000000000000000000001g"), (Some(13), None));
}

#[test]
fn what_is_no_size_is_refused() {
    assert_eq!(refused(""), "invalid dictionary size: ");
    assert_eq!(refused("k"), "invalid dictionary size: k");
    assert_eq!(refused("+"), "invalid dictionary size: +");
    assert_eq!(refused("big"), "invalid dictionary size: big");
    assert_eq!(refused("1 m"), "invalid dictionary size: 1 m");
    assert_eq!(refused("1mk"), "invalid dictionary size: 1mk");
    assert_eq!(refused("1.5g"), "invalid dictionary size: 1.5g");
    assert_eq!(refused("\u{661}g"), "invalid dictionary size: \u{661}g");
}

#[test]
fn sizes_under_128_kib_are_refused() {
    assert_eq!(refused("0"), "invalid dictionary size: 0");
    assert_eq!(refused("127k"), "invalid dictionary size: 127k");
    assert_eq!(refused("64k"), "invalid dictionary size: 64k");
}

#[test]
fn sizes_over_64_bits_are_refused() {
    assert_eq!(refused("18014398509481984k"), "invalid dictionary size: 18014398509481984k");
    assert_eq!(refused("17179869184g"), "invalid dictionary size: 17179869184g");
    assert_eq!(refused("18446744073709551616k"), "invalid dictionary size: 18446744073709551616k");
    assert_eq!(refused("99999999999999999999"), "invalid dictionary size: 99999999999999999999");
}

#[test]
fn other_sizes_up_to_4_gib_are_refused() {
    assert_eq!(
        refused("129k"),
        "dictionary sizes up to 4 GiB must be powers of two: 129k"
    );
    assert_eq!(
        refused(" 3g "),
        "dictionary sizes up to 4 GiB must be powers of two: 3g"
    );
    assert_eq!(
        refused("4095"),
        "dictionary sizes up to 4 GiB must be powers of two: 4095"
    );
}
