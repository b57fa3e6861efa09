use merter::candidates::{
    above_minimum, balance_exceeds, balance_is_nan, balance_rank, sort_by_balance, Entry,
};

fn entry(address: &str, balance: f32) -> Entry {
    Entry { address: address.to_string(), balance: balance.to_bits() }
}

fn samples() -> Vec<f32> {
    vec![
        f32::NEG_INFINITY,
        f32::MIN,
        -1.0e10,
        -6.5,
        -1.0,
        -f32::MIN_POSITIVE,
        -1.0e-45,
        -0.0,
        0.0,
        1.0e-45,
        f32::MIN_POSITIVE,
        0.5,
        1.0,
        5.0,
        6.0,
        10.0,
        1.0e10,
        f32::MAX,
        f32::INFINITY,
    ]
}

#[test]
fn rank_orders_bit_patterns_as_the_numbers() {
    let values = samples();
    for a in &values {
        for b in &values {
            assert_eq!(
                balance_rank(a.to_bits()) > balance_rank(b.to_bits()),
                a > b,
                "{} and {}",
                a,
                b
            );
            assert_eq!(balance_exceeds(a.to_bits(), b.to_bits()), a > b, "{} and {}", a, b);
        }
    }
}

#[test]
fn rank_has_exact_values() {
    assert_eq!(balance_rank(0.0f32.to_bits()), 0);
    assert_eq!(balance_rank((-0.0f32).to_bits()), 0);
    assert_eq!(balance_rank(1.0f32.to_bits()), 0x3f80_0000);
    assert_eq!(balance_rank((-1.0f32).to_bits()), -0x3f80_0000);
    assert_eq!(balance_rank(f32::INFINITY.to_bits()), 0x7f80_0000);
    assert_eq!(balance_rank(f32::NEG_INFINITY.to_bits()), -0x7f80_0000);
    assert_eq!(balance_rank(u32::MAX), -0x7fff_ffff);
}

#[test]
fn not_a_number_is_recognised() {
    assert!(balance_is_nan(f32::NAN.to_bits()));
    assert!(balance_is_nan(0x7f80_0001));
    assert!(balance_is_nan(0xffff_ffff));
    assert!(!balance_is_nan(f32::INFINITY.to_bits()));
    assert!(!balance_is_nan(f32::NEG_INFINITY.to_bits()));
    assert!(!balance_is_nan(0.0f32.to_bits()));
    for value in samples() {
        assert_eq!(balance_is_nan(value.to_bits()), value.is_nan());
    }
}

#[test]
fn not_a_number_never_exceeds_and_is_never_exceeded() {
    let nan = f32::NAN.to_bits();
    for value in samples() {
        assert!(!balance_exceeds(nan, value.to_bits()));
        assert!(!balance_exceeds(value.to_bits(), nan));
    }
    assert!(!balance_exceeds(nan, nan));
}

#[test]
fn only_balances_above_the_threshold_are_kept() {
    let entries = vec![entry("0xA", 10.0), entry("0xB", 5.0)];
    let kept = above_minimum(&entries, 6.0f32.to_bits());
    assert_eq!(kept, vec![entry("0xA", 10.0)]);
}

#[test]
fn balance_equal_to_the_threshold_is_dropped() {
    let entries = vec![entry("0xA", 6.0), entry("0xB", 6.000001), entry("0xC", 5.999999)];
    let kept = above_minimum(&entries, 6.0f32.to_bits());
    assert_eq!(kept, vec![entry("0xB", 6.000001)]);
}

#[test]
fn filter_keeps_the_order_of_the_input() {
    let entries = vec![
        entry("0xA", 1.0),
        entry("0xB", 9.0),
        entry("0xC", 0.0),
        entry("0xD", 3.0),
        entry("0xE", 7.0),
    ];
    let kept = above_minimum(&entries, 2.0f32.to_bits());
    assert_eq!(kept, vec![entry("0xB", 9.0), entry("0xD", 3.0), entry("0xE", 7.0)]);
}

#[test]
fn no_candidates_give_no_candidates() {
    let kept = above_minimum(&Vec::new(), 0.0f32.to_bits());
    assert!(kept.is_empty());
    assert!(sort_by_balance(Vec::new()).is_empty());
}

#[test]
fn threshold_that_is_no_number_keeps_nothing() {
    let entries = vec![entry("0xA", 10.0), entry("0xB", f32::INFINITY)];
    assert!(above_minimum(&entries, f32::NAN.to_bits()).is_empty());
}

#[test]
fn balance_that_is_no_number_is_dropped() {
    let entries = vec![entry("0xA", f32::NAN), entry("0xB", 1.0)];
    assert_eq!(above_minimum(&entries, 0.0f32.to_bits()), vec![entry("0xB", 1.0)]);
    assert_eq!(above_minimum(&entries, f32::NEG_INFINITY.to_bits()), vec![entry("0xB", 1.0)]);
}

#[test]
fn sort_puts_the_largest_balance_first() {
    let entries = vec![
        entry("0xA", 1.0),
        entry("0xB", 9.0),
        entry("0xC", -2.0),
        entry("0xD", 3.0),
        entry("0xE", 7.5),
    ];
    let sorted = sort_by_balance(entries);
    assert_eq!(
        sorted,
        vec![
            entry("0xB", 9.0),
            entry("0xE", 7.5),
            entry("0xD", 3.0),
            entry("0xA", 1.0),
            entry("0xC", -2.0),
        ]
    );
}

#[test]
fn sort_keeps_equal_balances_in_their_order() {
    let entries = vec![
        entry("0xA", 2.0),
        entry("0xB", 5.0),
        entry("0xC", 2.0),
        entry("0xD", 5.0),
        entry("0xE", 2.0),
    ];
    let sorted = sort_by_balance(entries);
    assert_eq!(
        sorted,
        vec![
            entry("0xB", 5.0),
            entry("0xD", 5.0),
            entry("0xA", 2.0),
            entry("0xC", 2.0),
            entry("0xE", 2.0),
        ]
    );
}

#[test]
fn sort_treats_the_two_zeros_as_equal() {
    let entries = vec![entry("0xA", -0.0), entry("0xB", 0.0), entry("0xC", -0.0)];
    let sorted = sort_by_balance(entries.clone());
    assert_eq!(sorted, entries);
}

#[test]
fn sort_agrees_with_a_stable_sort_of_the_numbers() {
    let mut seed: u32 = 99;
    let mut entries = Vec::new();
    for i in 0..200 {
        seed = seed.wrapping_mul(1_103_515_245).wrapping_add(12_345);
        let balance = ((seed >> 16) % 17) as f32 - 8.0;
        entries.push(entry(&format!("0x{:x}", i), balance));
    }
    let mut expected = entries.clone();
    expected.sort_by(|a, b| {
        f32::from_bits(b.balance).partial_cmp(&f32::from_bits(a.balance)).unwrap()
    });
    assert_eq!(sort_by_balance(entries), expected);
}
