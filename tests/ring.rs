use mixer::state::{load_state, store_state, MixerState, STATE_LEN};
use mixer::error::MixerError;

fn root(n: u8) -> [u8; 32] {
    let mut r = [0u8; 32];
    r[0] = n;
    r[31] = 0xAB;
    r
}

#[test]
fn fresh_pool_knows_nothing() {
    let s = MixerState::new(5);
    assert_eq!(s.denomination, 5);
    assert_eq!(s.current_root_index, 0);
    assert!(!s.is_known_root(&root(1)));
    assert!(!s.is_known_root(&[0u8; 32]));
}

#[test]
fn up_to_thirty_pushed_roots_are_known() {
    let mut s = MixerState::new(1);
    for i in 1..=30u8 {
        s.push_root(root(i));
        for j in 1..=i {
            assert!(s.is_known_root(&root(j)));
        }
        assert!(!s.is_known_root(&root(i + 1)));
    }
    assert!(!s.is_known_root(&root(200)));
    assert!(!s.is_known_root(&[0u8; 32]));
}

#[test]
fn zero_root_is_never_known_even_when_pushed() {
    let mut s = MixerState::new(1);
    s.push_root([0u8; 32]);
    assert!(!s.is_known_root(&[0u8; 32]));
}

#[test]
fn thirty_first_push_expires_the_oldest() {
    let mut s = MixerState::new(1);
    for i in 1..=31u8 {
        s.push_root(root(i));
    }
    assert!(!s.is_known_root(&root(1)));
    for i in 2..=31u8 {
        assert!(s.is_known_root(&root(i)));
    }
}

#[test]
fn push_advances_and_wraps_the_cursor() {
    let mut s = MixerState::new(1);
    s.push_root(root(1));
    assert_eq!(s.current_root_index, 1);
    assert_eq!(s.roots[1], root(1));
    for i in 2..=29u8 {
        s.push_root(root(i));
    }
    assert_eq!(s.current_root_index, 29);
    s.push_root(root(30));
    assert_eq!(s.current_root_index, 0);
    assert_eq!(s.roots[0], root(30));
    s.push_root(root(31));
    assert_eq!(s.current_root_index, 1);
    assert_eq!(s.roots[1], root(31));
}

#[test]
fn duplicate_root_survives_until_both_copies_expire() {
    let mut s = MixerState::new(1);
    s.push_root(root(9));
    for i in 10..39u8 {
        s.push_root(root(i));
    }
    s.push_root(root(9));
    s.push_root(root(50));
    assert!(s.is_known_root(&root(9)));
}

#[test]
fn cursor_outside_the_ring_still_scans_every_slot() {
    let mut s = MixerState::new(1);
    s.roots[17] = root(3);
    s.current_root_index = 200;
    assert!(s.is_known_root(&root(3)));
    assert!(!s.is_known_root(&root(4)));
}

#[test]
fn state_layout_and_round_trip() {
    assert_eq!(STATE_LEN, 969);
    assert_eq!(MixerState::LEN, 969);
    assert_eq!(MixerState::ROOT_HISTORY_SIZE, 30);
    let mut s = MixerState::new(0x0102_0304_0506_0708);
    s.push_root(root(7));
    s.push_root(root(8));
    let mut data = vec![0xEEu8; STATE_LEN + 3];
    assert_eq!(store_state(&mut data, &s), Ok(()));
    assert_eq!(&data[0..8], &[8, 7, 6, 5, 4, 3, 2, 1]);
    assert_eq!(&data[8..40], &[0u8; 32]);
    assert_eq!(&data[40..72], &root(7));
    assert_eq!(&data[72..104], &root(8));
    assert_eq!(data[968], 2);
    assert_eq!(&data[969..], &[0xEE, 0xEE, 0xEE]);
    let back = load_state(&data).unwrap();
    assert_eq!(back.denomination, s.denomination);
    assert_eq!(back.roots, s.roots);
    assert_eq!(back.current_root_index, 2);
}

#[test]
fn short_storage_is_rejected() {
    let data = vec![0u8; STATE_LEN - 1];
    assert_eq!(load_state(&data).unwrap_err(), MixerError::StorageTooSmall);
    let mut data2 = vec![3u8; STATE_LEN - 1];
    let s = MixerState::new(1);
    assert_eq!(store_state(&mut data2, &s), Err(MixerError::StorageTooSmall));
    assert_eq!(data2, vec![3u8; STATE_LEN - 1]);
}
