use mixer::error::MixerError;
use mixer::instruction::MixerInstruction;

fn fill(n: u8) -> [u8; 32] {
    [n; 32]
}

#[test]
fn initialize_decodes_little_endian() {
    let mut p = vec![0u8];
    p.extend_from_slice(&1_000_000u64.to_le_bytes());
    match MixerInstruction::unpack(&p) {
        Ok(MixerInstruction::Initialize { denomination }) => assert_eq!(denomination, 1_000_000),
        _ => panic!("expected Initialize"),
    }
}

#[test]
fn push_root_decodes() {
    let mut p = vec![1u8];
    p.extend_from_slice(&fill(4));
    match MixerInstruction::unpack(&p) {
        Ok(MixerInstruction::PushRoot { new_root }) => assert_eq!(new_root, fill(4)),
        _ => panic!("expected PushRoot"),
    }
}

#[test]
fn withdraw_decodes_with_empty_and_long_proof() {
    for proof_len in [0usize, 1, 300] {
        let mut p = vec![2u8];
        p.extend_from_slice(&fill(1));
        p.extend_from_slice(&fill(2));
        p.extend_from_slice(&fill(3));
        p.extend((0..proof_len).map(|i| i as u8));
        match MixerInstruction::unpack(&p) {
            Ok(MixerInstruction::Withdraw { root, nullifier_hash, recipient_field, proof }) => {
                assert_eq!(root, fill(1));
                assert_eq!(nullifier_hash, fill(2));
                assert_eq!(recipient_field, fill(3));
                assert_eq!(proof, (0..proof_len).map(|i| i as u8).collect::<Vec<u8>>());
            }
            _ => panic!("expected Withdraw"),
        }
    }
}

#[test]
fn malformed_payloads_are_invalid() {
    let bad: Vec<Vec<u8>> = vec![
        vec![],
        vec![0u8; 8],
        vec![0u8; 10],
        vec![1u8; 32],
        vec![1u8; 34],
        {
            let mut v = vec![2u8];
            v.extend_from_slice(&[0u8; 95]);
            v
        },
        vec![3u8; 9],
        vec![255u8],
    ];
    for p in bad {
        assert!(matches!(
            MixerInstruction::unpack(&p),
            Err(MixerError::InvalidInstruction)
        ));
    }
}

#[test]
fn every_prefix_shorter_than_required_is_invalid() {
    let w = MixerInstruction::Withdraw {
        root: fill(1),
        nullifier_hash: fill(2),
        recipient_field: fill(3),
        proof: vec![],
    }
    .pack();
    for n in 0..97 {
        assert!(MixerInstruction::unpack(&w[..n]).is_err());
    }
    let i = MixerInstruction::Initialize { denomination: 9 }.pack();
    for n in 0..9 {
        assert!(MixerInstruction::unpack(&i[..n]).is_err());
    }
    let r = MixerInstruction::PushRoot { new_root: fill(5) }.pack();
    for n in 0..33 {
        assert!(MixerInstruction::unpack(&r[..n]).is_err());
    }
}

#[test]
fn pack_then_unpack_round_trips() {
    let i = MixerInstruction::Initialize { denomination: u64::MAX - 3 }.pack();
    assert_eq!(i.len(), 9);
    assert_eq!(i[0], 0);
    match MixerInstruction::unpack(&i) {
        Ok(MixerInstruction::Initialize { denomination }) => assert_eq!(denomination, u64::MAX - 3),
        _ => panic!("expected Initialize"),
    }
    let r = MixerInstruction::PushRoot { new_root: fill(8) }.pack();
    assert_eq!(r.len(), 33);
    match MixerInstruction::unpack(&r) {
        Ok(MixerInstruction::PushRoot { new_root }) => assert_eq!(new_root, fill(8)),
        _ => panic!("expected PushRoot"),
    }
    let w = MixerInstruction::Withdraw {
        root: fill(1),
        nullifier_hash: fill(2),
        recipient_field: fill(3),
        proof: vec![9, 8, 7],
    }
    .pack();
    assert_eq!(w.len(), 100);
    match MixerInstruction::unpack(&w) {
        Ok(MixerInstruction::Withdraw { root, nullifier_hash, recipient_field, proof }) => {
            assert_eq!(root, fill(1));
            assert_eq!(nullifier_hash, fill(2));
            assert_eq!(recipient_field, fill(3));
            assert_eq!(proof, vec![9, 8, 7]);
        }
        _ => panic!("expected Withdraw"),
    }
}

#[test]
fn error_codes() {
    assert_eq!(MixerError::InvalidInstruction.code(), 0);
    assert_eq!(MixerError::UnknownRoot.code(), 1);
    assert_eq!(MixerError::NullifierUsed.code(), 2);
    assert_eq!(MixerError::VerificationFailed.code(), 3);
    assert_eq!(MixerError::StorageTooSmall.code(), 6);
    assert!(MixerError::VerificationFailed.is_custom());
    assert!(!MixerError::Unauthorized.is_custom());
}
