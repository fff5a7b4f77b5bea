use file_share::code::{base_n, de_code, gen_code, is_decodable};

#[test]
fn util_test_gen_code() {
    let num: u32 = 12000000;
    let code = gen_code(num);
    println!("{num} -> {code}");
    assert_eq!(code, "8ZAM6");
    let num2 = de_code("8ZAM6");
    println!("8ZAM6 -> {num2}");
    assert_eq!(num2, 12000000);
}

#[test]
fn gen_code_of_zero_is_empty() {
    assert_eq!(gen_code(0), "");
    assert_eq!(de_code(""), 0);
}

#[test]
fn gen_code_skips_i_and_o() {
    assert_eq!(gen_code(17), "H");
    assert_eq!(gen_code(18), "J");
    assert_eq!(gen_code(22), "N");
    assert_eq!(gen_code(23), "P");
    assert_eq!(gen_code(33), "Z");
    assert_eq!(gen_code(34), "10");
}

#[test]
fn gen_code_of_pool_edges() {
    assert_eq!(gen_code(1000001), "RF1T");
    assert_eq!(gen_code(1999999), "1GW3H");
    assert_eq!(gen_code(u32::MAX), "2SHZKMH");
}

#[test]
fn round_trip_on_samples() {
    for n in [0u32, 1, 9, 10, 33, 34, 35, 1155, 1000000, 1999999, 12000000, u32::MAX] {
        let code = gen_code(n);
        assert!(is_decodable(&code));
        assert_eq!(de_code(&code), n);
    }
}

#[test]
fn canonical_codes_round_trip() {
    for s in ["1", "Z", "10", "8ZAM6", "2SHZKMH"] {
        assert_eq!(gen_code(de_code(s)), s);
    }
}

#[test]
fn leading_zero_decodes_the_same() {
    assert_eq!(de_code("0010"), 34);
    assert_eq!(gen_code(de_code("0010")), "10");
}

#[test]
fn decodable_rejects_bad_codes() {
    assert!(is_decodable(""));
    assert!(is_decodable("2SHZKMH"));
    assert!(!is_decodable("2SHZKMJ"));
    assert!(!is_decodable("00000001"));
    assert!(!is_decodable("I"));
    assert!(!is_decodable("O"));
    assert!(!is_decodable("a"));
    assert!(!is_decodable("é"));
}

#[test]
fn base_n_lower_then_upper_letters() {
    assert_eq!(base_n(12345, 62), "3d7");
    assert_eq!(base_n(255, 16), "ff");
    assert_eq!(base_n(1000, 2), "1111101000");
    assert_eq!(base_n(35, 36), "z");
    assert_eq!(base_n(36, 62), "A");
    assert_eq!(base_n(61, 62), "Z");
    assert_eq!(base_n(0, 62), "");
}

#[test]
fn base_n_wide_remainders_in_decimal() {
    assert_eq!(base_n(100, 100), "10");
    assert_eq!(base_n(6300, 100), "630");
    assert_eq!(base_n(12345, 100), "1nJ");
}

#[test]
fn base_n_negative_base_wraps() {
    assert_eq!(base_n(5, -1), "5");
    assert_eq!(base_n(4294967295, -5), "-1");
    assert_eq!(base_n(0, 0), "");
    assert_eq!(base_n(0, 1), "");
}

#[test]
fn base_n_matches_std_formatting() {
    for num in [1u64, 7, 10, 255, 4096, 123456789, u64::MAX] {
        assert_eq!(base_n(num, 10), num.to_string());
        assert_eq!(base_n(num, 16), format!("{:x}", num));
        assert_eq!(base_n(num, 8), format!("{:o}", num));
        assert_eq!(base_n(num, 2), format!("{:b}", num));
    }
}

#[test]
fn short_codes_grow_with_numbers() {
    let samples = [1u32, 2, 33, 34, 35, 1155, 1156, 39303, 1_000_000, 12_000_000, u32::MAX - 1, u32::MAX];
    for a in samples {
        for b in samples {
            if a < b {
                let (ca, cb) = (gen_code(a), gen_code(b));
                assert!(ca.len() <= cb.len());
                if ca.len() == cb.len() {
                    assert!(ca < cb);
                }
            }
        }
    }
}
