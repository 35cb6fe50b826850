use subnet_rental_canister::principal::Principal;
use subnet_rental_canister::text::{decimal_string, duration_string, hex_string, icp_string};

#[test]
fn durations_read_as_std_shows_them() {
    for n in [
        0u64,
        1,
        999,
        1_000,
        1_500,
        999_999,
        1_000_000,
        1_234_567,
        999_999_999,
        1_000_000_000,
        1_500_000_000,
        1_000_000_001,
        259_200_500_000_000,
        u64::MAX,
    ] {
        assert_eq!(duration_string(n), format!("{:?}", std::time::Duration::from_nanos(n)));
    }
    assert_eq!(duration_string(1_500_000_000), "1.5s");
    assert_eq!(duration_string(1_500), "1.5µs");
}

#[test]
fn numbers_in_decimal_and_hex() {
    assert_eq!(decimal_string(0), "0");
    assert_eq!(decimal_string(1_234_567_890), "1234567890");
    assert_eq!(decimal_string(u128::MAX), u128::MAX.to_string());
    assert_eq!(hex_string(&[0, 255, 16, 171]), "00ff10ab");
    assert_eq!(hex_string(&[]), "");
}

#[test]
fn icp_amounts_have_eight_decimals() {
    assert_eq!(icp_string(123_456_789), "1.23456789");
    assert_eq!(icp_string(10_000), "0.00010000");
    assert_eq!(icp_string(0), "0.00000000");
    assert_eq!(icp_string(100_000_000_000), "1000.00000000");
}

#[test]
fn principals_in_text() {
    assert_eq!(Principal::anonymous().to_text(), "2vxsx-fae");
    assert_eq!(Principal::management_canister().to_text(), "aaaaa-aa");
    let p = Principal::from_text("rrkah-fqaaa-aaaaa-aaaaq-cai").unwrap();
    assert_eq!(p.as_slice(), &[0, 0, 0, 0, 0, 0, 0, 1, 1, 1]);
    assert_eq!(p.to_text(), "rrkah-fqaaa-aaaaa-aaaaq-cai");
    assert!(Principal::from_text("not a principal").is_none());
    assert!(Principal::try_from_slice(&[0u8; 30]).is_none());
    assert_eq!(Principal::try_from_slice(&[0u8; 29]).unwrap().to_vec(), vec![0u8; 29]);
}
