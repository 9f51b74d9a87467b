use nautilus::regex_mutator::{append_char, get_length, RegexScript, RomuPrng};

#[test]
fn romu_known_sequence() {
    let mut r = RomuPrng::new_from_u64(42);
    assert_eq!(r.next_u64(), 5773505923657961106);
    assert_eq!(r.next_u64(), 18069734587608251002);
    assert_eq!(r.next_u64(), 10379595877744474865);
    assert_eq!(r.next_u64(), 1222011681234293647);
}

#[test]
fn romu_truncates_to_u32() {
    let mut r = RomuPrng::new_from_u64(42);
    assert_eq!(r.next_u32(), 1480527506);
    assert_eq!(r.next_u32(), 2952444538);
}

#[test]
fn romu_is_deterministic() {
    let mut a = RomuPrng::new_from_u64(7);
    let mut b = RomuPrng::new_from_u64(7);
    for _ in 0..16 {
        assert_eq!(a.next_u64(), b.next_u64());
    }
}

#[test]
fn romu_range_stays_in_bounds() {
    let mut r = RomuPrng::new_from_u64(7);
    assert_eq!(r.range(10, 20), 19);
    assert_eq!(r.range(10, 20), 13);
    assert_eq!(r.range(10, 20), 14);
    for _ in 0..100 {
        let v = r.range(3, 9);
        assert!((3..9).contains(&v));
    }
}

#[test]
fn exhausted_script_draws_zero() {
    // Seed 5 yields an empty budget: every draw collapses.
    let mut s = RegexScript::new(5);
    assert_eq!(s.remaining, 0);
    assert_eq!(s.get_mod(10), 0);
    // With the budget exhausted even a zero modulus is fine: nothing is
    // divided and the generator is untouched.
    assert_eq!(s.get_mod(0), 0);
    assert_eq!(s.get_range(10, 15), 10);
    assert_eq!(get_length(&mut s), 0);
}

#[test]
fn budgeted_script_draws() {
    // Seed 3 yields a budget of 5.
    let mut s = RegexScript::new(3);
    assert_eq!(s.remaining, 5);
    assert_eq!(s.get_mod(10), 6);
    let mut s2 = RegexScript::new(3);
    assert_eq!(s2.get_range(10, 15), 11);
}

#[test]
fn utf8_append() {
    let mut buf = vec![1u8];
    append_char(&mut buf, 'A');
    assert_eq!(buf, vec![1, 0x41]);
    let mut buf2: Vec<u8> = Vec::new();
    append_char(&mut buf2, 'é');
    assert_eq!(buf2, vec![0xC3, 0xA9]);
    let mut buf3: Vec<u8> = Vec::new();
    append_char(&mut buf3, '€');
    assert_eq!(buf3, vec![0xE2, 0x82, 0xAC]);
    let mut buf4: Vec<u8> = Vec::new();
    append_char(&mut buf4, '𝄞');
    assert_eq!(buf4, vec![0xF0, 0x9D, 0x84, 0x9E]);
}
