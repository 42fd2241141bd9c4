use snap_coin_miner::bytes::comes_after;
use snap_coin_miner::text::{decimal_text, push_decimal, push_signed};
use snap_coin_miner::units::{difficulty_parts, takes_next_unit, unit_label, UNIT_COUNT};

fn bytes(places: &[(usize, u8)]) -> [u8; 32] {
    let mut all = [0u8; 32];
    for (place, value) in places {
        all[*place] = *value;
    }
    all
}

#[test]
fn byte_order_is_decided_by_the_first_difference() {
    let small = bytes(&[(0, 1), (31, 255)]);
    let large = bytes(&[(0, 2)]);
    assert!(comes_after(&large, &small));
    assert!(!comes_after(&small, &large));
    assert!(comes_after(&bytes(&[(31, 1)]), &bytes(&[])));
    assert!(comes_after(&[255; 32], &bytes(&[(0, 255)])));
}

#[test]
fn nothing_comes_after_itself() {
    let some = bytes(&[(3, 7), (20, 9)]);
    assert!(!comes_after(&some, &some));
    assert!(!comes_after(&[0; 32], &[0; 32]));
    assert!(!comes_after(&[255; 32], &[255; 32]));
}

#[test]
fn byte_order_agrees_with_the_order_of_arrays() {
    let samples = [
        bytes(&[]),
        bytes(&[(31, 1)]),
        bytes(&[(16, 128)]),
        bytes(&[(0, 1)]),
        bytes(&[(0, 1), (1, 1)]),
        [255; 32],
    ];
    for a in &samples {
        for b in &samples {
            assert_eq!(comes_after(a, b), a > b);
        }
    }
}

#[test]
fn difficulty_of_zero_has_no_parts() {
    assert!(difficulty_parts(&[0; 32]).is_none());
}

#[test]
fn difficulty_parts_of_the_largest_target() {
    let parts = difficulty_parts(&[255; 32]).unwrap();
    assert_eq!(parts.mantissa, u64::MAX);
    assert_eq!(parts.exponent, 256);
}

#[test]
fn difficulty_parts_start_at_the_first_non_zero_byte() {
    let mut target = [0u8; 32];
    for i in 0..9 {
        target[2 + i] = (i + 1) as u8;
    }
    let parts = difficulty_parts(&target).unwrap();
    assert_eq!(parts.mantissa, 0x0102_0304_0506_0708);
    assert_eq!(parts.exponent, 240);
}

#[test]
fn difficulty_parts_near_the_end_are_filled_with_zeros() {
    let parts = difficulty_parts(&bytes(&[(30, 0xab), (31, 0xcd)])).unwrap();
    assert_eq!(parts.mantissa, 0xabcd_0000_0000_0000);
    assert_eq!(parts.exponent, 16);
    let last = difficulty_parts(&bytes(&[(31, 1)])).unwrap();
    assert_eq!(last.mantissa, 0x0100_0000_0000_0000);
    assert_eq!(last.exponent, 8);
}

#[test]
fn smaller_targets_have_smaller_parts() {
    let targets = [
        bytes(&[(31, 1)]),
        bytes(&[(31, 255)]),
        bytes(&[(30, 1)]),
        bytes(&[(20, 3), (28, 1)]),
        bytes(&[(20, 3), (27, 1)]),
        bytes(&[(0, 1)]),
        [255; 32],
    ];
    for pair in targets.windows(2) {
        assert!(comes_after(&pair[1], &pair[0]));
        let small = difficulty_parts(&pair[0]).unwrap();
        let large = difficulty_parts(&pair[1]).unwrap();
        assert!((small.exponent, small.mantissa) <= (large.exponent, large.mantissa));
    }
    let near = difficulty_parts(&targets[3]).unwrap();
    assert_eq!(near.mantissa, 0x0300_0000_0000_0000);
    assert_eq!(difficulty_parts(&targets[4]).unwrap().mantissa, 0x0300_0000_0000_0001);
}

#[test]
fn units_of_the_hash_rate() {
    let names: Vec<&str> = (0..UNIT_COUNT).map(unit_label).collect();
    assert_eq!(names, vec!["H/s", "kH/s", "MH/s", "GH/s", "TH/s"]);
    assert!(takes_next_unit(0, true));
    assert!(takes_next_unit(3, true));
    assert!(!takes_next_unit(4, true));
    assert!(!takes_next_unit(0, false));
}

#[test]
fn decimals() {
    for n in [0u64, 7, 10, 99, 100, 1234567890, u64::MAX] {
        assert_eq!(decimal_text(n), n.to_string());
    }
}

#[test]
fn numbers_are_appended() {
    let mut text = String::from("n=");
    push_decimal(&mut text, 42);
    assert_eq!(text, "n=42");
    for n in [0i64, 5, -5, -10, i64::MAX, i64::MIN] {
        let mut text = String::from("> ");
        push_signed(&mut text, n);
        assert_eq!(text, format!("> {}", n));
    }
}
