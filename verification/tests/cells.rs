use life_kernel::cell::{alive, flip, lived, promote, settle, WAS_ALIVE};

#[test]
fn promote_moves_bit_zero_to_bit_four() {
    assert_eq!(WAS_ALIVE, 16);
    assert_eq!(promote(0), 0);
    assert_eq!(promote(1), 16);
    assert_eq!(promote(16), 0);
    assert_eq!(promote(17), 16);
    assert_eq!(promote(0xFF), 16);
    assert_eq!(promote(0xFE), 0);
}

#[test]
fn settle_lets_a_live_cell_survive_on_two_or_three() {
    assert_eq!(settle(16, 0), 16);
    assert_eq!(settle(16, 1), 16);
    assert_eq!(settle(16, 2), 17);
    assert_eq!(settle(16, 3), 17);
    assert_eq!(settle(16, 4), 16);
    assert_eq!(settle(16, 8), 16);
}

#[test]
fn settle_lets_a_dead_cell_be_born_on_three() {
    assert_eq!(settle(0, 0), 0);
    assert_eq!(settle(0, 2), 0);
    assert_eq!(settle(0, 3), 1);
    assert_eq!(settle(0, 4), 0);
    assert_eq!(settle(0, 8), 0);
}

#[test]
fn alive_reads_bit_zero_and_lived_reads_bit_four() {
    assert!(!alive(0));
    assert!(alive(1));
    assert!(!alive(16));
    assert!(alive(17));
    assert!(!lived(0));
    assert!(!lived(1));
    assert!(lived(16));
    assert!(lived(17));
}

#[test]
fn flip_changes_bit_zero_only() {
    assert_eq!(flip(0), 1);
    assert_eq!(flip(1), 0);
    assert_eq!(flip(16), 17);
    assert_eq!(flip(17), 16);
    for c in 0..=255u8 {
        assert_eq!(flip(flip(c)), c);
        assert_eq!(flip(c) & 0xFE, c & 0xFE);
    }
}
