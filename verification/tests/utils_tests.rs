use endless::utils;

#[test]
fn rnd_within_stays_in_range() {
    for _ in 0..200 {
        let v = utils::rnd_within(10, 15);
        assert!((10..15).contains(&v));
    }
    assert_eq!(utils::rnd_within(4, 5), 4);
}

#[test]
fn rnd_lt_stays_below() {
    for _ in 0..200 {
        assert!(utils::rnd_lt(7) < 7);
    }
    assert_eq!(utils::rnd_lt(1), 0);
}

#[test]
fn rnd_ch_is_printable_ascii() {
    for _ in 0..200 {
        let c = utils::rnd_ch();
        assert!(c.is_ascii_graphic());
    }
}

#[test]
fn rnd_string_has_requested_length() {
    let s = utils::rnd_string(10);
    assert_eq!(s.chars().count(), 10);
    assert!(s.chars().all(|c| c.is_ascii_graphic()));
    assert_eq!(utils::rnd_string(0), "");
}
