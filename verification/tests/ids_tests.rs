use endless::game::endless::ids;

#[test]
fn hex_of_zero_is_all_zero_digits() {
    assert_eq!(ids::room_id_hex(0), "00000000000000000000000000000000");
}

#[test]
fn hex_of_small_value_is_right_aligned() {
    assert_eq!(ids::room_id_hex(0x123abc), "00000000000000000000000000123abc");
}

#[test]
fn hex_of_max_value_is_all_f() {
    assert_eq!(ids::room_id_hex(u128::MAX), "ffffffffffffffffffffffffffffffff");
}

#[test]
fn hex_uses_every_digit() {
    assert_eq!(
        ids::room_id_hex(0x0123456789abcdef_fedcba9876543210),
        "0123456789abcdeffedcba9876543210"
    );
}

#[test]
fn contains_id_finds_members_only() {
    let ids_v: Vec<u128> = vec![5, 9, 42];
    assert!(ids::contains_id(&ids_v, 9));
    assert!(!ids::contains_id(&ids_v, 7));
    assert!(!ids::contains_id(&Vec::new(), 0));
}

#[test]
fn fresh_room_id_avoids_existing() {
    let mut taken: Vec<u128> = Vec::new();
    for _ in 0..50 {
        let id = ids::fresh_room_id(&taken);
        assert!(!taken.contains(&id));
        taken.push(id);
    }
}
