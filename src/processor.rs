use vstd::prelude::*;

use crate::address::{nullifier_address, nullifier_seeds, program_address_of, state_address, state_seeds};
use crate::error::MixerError;
use crate::state::{
    decode_state, encodes_state, load_state, store_state, MixerState, PoolView, STATE_LEN,
};

verus! {

/// What initialization asks of the host.
#[derive(Debug, Clone, Copy, PartialEq, Eq, Structural)]
pub enum InitPlan {
    /// Create the state storage at its derived address, signing with `bump`,
    /// then write the initial state with `write_initial_state`.
    Create { bump: u8 },
    /// The storage exists already: leave it as it is.
    Keep,
}

/// What a checked withdrawal asks of the host, in this order: have the
/// verifier check the proof (a rejection is `VerificationFailed`), create the
/// spent marker at its derived address signing with `marker_bump`, and pay
/// `amount` from the vault to the recipient.
#[derive(Debug, Clone, Copy, PartialEq, Eq, Structural)]
pub struct WithdrawPlan {
    pub marker_bump: u8,
    pub amount: u64,
}

/// The outcome of initialization, given whether the payer signed, the
/// address and lamports of the state storage, and its length.
pub open spec fn init_decision(
    program_id: Seq<u8>,
    payer_is_signer: bool,
    state_key: Seq<u8>,
    state_lamports: u64,
    state_data_len: nat,
) -> Result<InitPlan, MixerError> {
    if !payer_is_signer {
        Err(MixerError::Unauthorized)
    } else if state_lamports == 0 {
        match program_address_of(state_seeds(), program_id) {
            Some(found) => if found.0 == state_key {
                Ok(InitPlan::Create { bump: found.1 })
            } else {
                Err(MixerError::InvalidArgument)
            },
            None => Err(MixerError::InvalidArgument),
        }
    } else if state_data_len < STATE_LEN {
        Err(MixerError::StorageTooSmall)
    } else {
        Ok(InitPlan::Keep)
    }
}

/// The proof blob ends with the public inputs that the verifier checks:
/// root, nullifier hash and recipient, 32 bytes each.
pub open spec fn binds_public_inputs(
    proof: Seq<u8>,
    root: Seq<u8>,
    nullifier_hash: Seq<u8>,
    recipient_field: Seq<u8>,
) -> bool {
    &&& proof.len() >= 96
    &&& proof.subrange(proof.len() - 96, proof.len() as int) == root + nullifier_hash
        + recipient_field
}

/// The outcome of the checks of a withdrawal, in the order they are made.
pub open spec fn withdraw_decision(
    program_id: Seq<u8>,
    state_data: Seq<u8>,
    nullifier_key: Seq<u8>,
    nullifier_lamports: u64,
    funder_is_signer: bool,
    root: Seq<u8>,
    nullifier_hash: Seq<u8>,
    recipient_field: Seq<u8>,
    proof: Seq<u8>,
) -> Result<WithdrawPlan, MixerError> {
    if state_data.len() < STATE_LEN {
        Err(MixerError::StorageTooSmall)
    } else if !decode_state(state_data).knows(root) {
        Err(MixerError::UnknownRoot)
    } else {
        match program_address_of(nullifier_seeds(nullifier_hash), program_id) {
            Some(found) => if found.0 != nullifier_key {
                Err(MixerError::InvalidArgument)
            } else if nullifier_lamports > 0 {
                Err(MixerError::NullifierUsed)
            } else if !binds_public_inputs(proof, root, nullifier_hash, recipient_field) {
                Err(MixerError::VerificationFailed)
            } else if !funder_is_signer {
                Err(MixerError::Unauthorized)
            } else {
                Ok(
                    WithdrawPlan {
                        marker_bump: found.1,
                        amount: decode_state(state_data).denomination,
                    },
                )
            },
            None => Err(MixerError::InvalidArgument),
        }
    }
}

/// Decides initialization. Without the payer's signature it fails. When the
/// state storage does not exist yet (no lamports), it must sit at the derived
/// state address, and the plan is to create it; when it exists, it is kept,
/// so that a second initialization changes nothing.
pub fn plan_initialize(
    program_id: &[u8; 32],
    payer_is_signer: bool,
    state_key: &[u8; 32],
    state_lamports: u64,
    state_data_len: usize,
) -> (r: Result<InitPlan, MixerError>)
    ensures
        r == init_decision(
            program_id@,
            payer_is_signer,
            state_key@,
            state_lamports,
            state_data_len as nat,
        ),
{
    if !payer_is_signer {
        return Err(MixerError::Unauthorized);
    }
    if state_lamports == 0 {
        match state_address(program_id) {
            Some(found) => {
                if crate::bytes::bytes32_eq(&found.0, state_key) {
                    Ok(InitPlan::Create { bump: found.1 })
                } else {
                    Err(MixerError::InvalidArgument)
                }
            },
            None => Err(MixerError::InvalidArgument),
        }
    } else if state_data_len < STATE_LEN {
        Err(MixerError::StorageTooSmall)
    } else {
        Ok(InitPlan::Keep)
    }
}

/// Writes the state of a new pool: the denomination, thirty zero roots and
/// the cursor at slot zero.
pub fn write_initial_state(data: &mut [u8], denomination: u64) -> (r: Result<(), MixerError>)
    ensures
        old(data)@.len() < STATE_LEN <==> r is Err,
        r matches Err(e) ==> e == MixerError::StorageTooSmall && final(data)@ == old(data)@,
        r is Ok ==> encodes_state(final(data)@, PoolView::fresh(denomination)),
        r is Ok ==> decode_state(final(data)@) == PoolView::fresh(denomination),
        final(data)@.len() == old(data)@.len(),
{
    let state = MixerState::new(denomination);
    let r = store_state(data, &state);
    proof {
        if r is Ok {
            crate::state::lemma_state_round_trip(data@, state@);
        }
    }
    r
}

/// Records a new root: without the authority's signature it fails and
/// changes nothing; otherwise it reads the state, pushes the root and writes
/// the state back.
pub fn process_push_root(authority_is_signer: bool, data: &mut [u8], new_root: [u8; 32]) -> (r:
    Result<(), MixerError>)
    ensures
        !authority_is_signer ==> r == Err::<(), MixerError>(MixerError::Unauthorized),
        authority_is_signer && old(data)@.len() < STATE_LEN ==> r == Err::<(), MixerError>(
            MixerError::StorageTooSmall,
        ),
        r is Err ==> final(data)@ == old(data)@,
        authority_is_signer && old(data)@.len() >= STATE_LEN ==> r is Ok,
        r is Ok ==> encodes_state(final(data)@, decode_state(old(data)@).push(new_root@)),
        final(data)@.len() == old(data)@.len(),
        forall|k: int| STATE_LEN <= k < old(data)@.len() ==> final(data)@[k] == old(data)@[k],
{
    if !authority_is_signer {
        return Err(MixerError::Unauthorized);
    }
    let mut state = match load_state(data) {
        Ok(s) => s,
        Err(e) => {
            return Err(e);
        },
    };
    state.push_root(new_root);
    store_state(data, &state)
}

/// Whether `data[at..at + 32]` equals `expected`.
fn window_matches(data: &[u8], at: usize, expected: &[u8; 32]) -> (r: bool)
    requires
        at + 32 <= data@.len(),
    ensures
        r == (data@.subrange(at as int, at + 32) == expected@),
{
    let n: usize = data.len();
    let mut i: usize = 0;
    while i < 32
        invariant
            i <= 32,
            n == data@.len(),
            at + 32 <= n,
            expected@.len() == 32,
            forall|k: int| 0 <= k < i ==> data@[at + k] == expected@[k],
        decreases 32 - i,
    {
        if data[at + i] != expected[i] {
            assert(data@.subrange(at as int, at + 32)[i as int] != expected@[i as int]);
            return false;
        }
        i = i + 1;
    }
    assert(data@.subrange(at as int, at + 32) =~= expected@);
    true
}

/// Whether the proof blob ends with the given public inputs.
fn proof_binds(proof: &[u8], root: &[u8; 32], nullifier_hash: &[u8; 32], recipient_field: &[u8; 32]) -> (r: bool)
    ensures
        r == binds_public_inputs(proof@, root@, nullifier_hash@, recipient_field@),
{
    let n: usize = proof.len();
    if n < 96 {
        return false;
    }
    let at: usize = n - 96;
    let a = window_matches(proof, at, root);
    let b = window_matches(proof, at + 32, nullifier_hash);
    let c = window_matches(proof, at + 64, recipient_field);
    let ghost tail = proof@.subrange(at as int, n as int);
    let ghost want = root@ + nullifier_hash@ + recipient_field@;
    assert(tail.subrange(0, 32) =~= proof@.subrange(at as int, at + 32));
    assert(tail.subrange(32, 64) =~= proof@.subrange(at + 32, at + 64));
    assert(tail.subrange(64, 96) =~= proof@.subrange(at + 64, at + 96));
    assert(want.subrange(0, 32) =~= root@);
    assert(want.subrange(32, 64) =~= nullifier_hash@);
    assert(want.subrange(64, 96) =~= recipient_field@);
    if a && b && c {
        assert(tail =~= want);
    }
    a && b && c
}

/// Checks a withdrawal before any funds move, in this order: the state must
/// load, the root must be known, the nullifier account must sit at the marker
/// address derived from the nullifier hash and hold no lamports, the proof
/// blob must end with the withdrawal's public inputs, and the marker's funder
/// must have signed. On success the plan pays out the pool's denomination.
pub fn plan_withdraw(
    program_id: &[u8; 32],
    state_data: &[u8],
    nullifier_key: &[u8; 32],
    nullifier_lamports: u64,
    funder_is_signer: bool,
    root: &[u8; 32],
    nullifier_hash: &[u8; 32],
    recipient_field: &[u8; 32],
    proof: &[u8],
) -> (r: Result<WithdrawPlan, MixerError>)
    ensures
        r == withdraw_decision(
            program_id@,
            state_data@,
            nullifier_key@,
            nullifier_lamports,
            funder_is_signer,
            root@,
            nullifier_hash@,
            recipient_field@,
            proof@,
        ),
{
    let state = match load_state(state_data) {
        Ok(s) => s,
        Err(e) => {
            return Err(e);
        },
    };
    if !state.is_known_root(root) {
        return Err(MixerError::UnknownRoot);
    }
    match nullifier_address(program_id, nullifier_hash) {
        Some(found) => {
            if !crate::bytes::bytes32_eq(&found.0, nullifier_key) {
                Err(MixerError::InvalidArgument)
            } else if nullifier_lamports > 0 {
                Err(MixerError::NullifierUsed)
            } else if !proof_binds(proof, root, nullifier_hash, recipient_field) {
                Err(MixerError::VerificationFailed)
            } else if !funder_is_signer {
                Err(MixerError::Unauthorized)
            } else {
                Ok(WithdrawPlan { marker_bump: found.1, amount: state.denomination })
            }
        },
        None => Err(MixerError::InvalidArgument),
    }
}

/// A withdrawal never goes through while the marker for its nullifier hash
/// holds lamports, whatever the proof, recipient or signer.
pub proof fn lemma_spent_nullifier_blocks(
    program_id: Seq<u8>,
    state_data: Seq<u8>,
    nullifier_key: Seq<u8>,
    nullifier_lamports: u64,
    funder_is_signer: bool,
    root: Seq<u8>,
    nullifier_hash: Seq<u8>,
    recipient_field: Seq<u8>,
    proof: Seq<u8>,
)
    requires
        nullifier_lamports > 0,
    ensures
        withdraw_decision(
            program_id,
            state_data,
            nullifier_key,
            nullifier_lamports,
            funder_is_signer,
            root,
            nullifier_hash,
            recipient_field,
            proof,
        ) is Err,
{
}

/// Once a withdrawal against a pool state, root and nullifier hash has passed
/// its checks and the marker it created holds lamports, a second withdrawal
/// with the same state, root, nullifier hash and marker account fails with
/// `NullifierUsed`, whatever its proof, recipient or signer.
pub proof fn lemma_nullifier_single_use(
    program_id: Seq<u8>,
    state_data: Seq<u8>,
    nullifier_key: Seq<u8>,
    root: Seq<u8>,
    nullifier_hash: Seq<u8>,
    first_signer: bool,
    first_recipient: Seq<u8>,
    first_proof: Seq<u8>,
    marker_lamports: u64,
    second_signer: bool,
    second_recipient: Seq<u8>,
    second_proof: Seq<u8>,
)
    requires
        withdraw_decision(
            program_id,
            state_data,
            nullifier_key,
            0,
            first_signer,
            root,
            nullifier_hash,
            first_recipient,
            first_proof,
        ) is Ok,
        marker_lamports > 0,
    ensures
        withdraw_decision(
            program_id,
            state_data,
            nullifier_key,
            marker_lamports,
            second_signer,
            root,
            nullifier_hash,
            second_recipient,
            second_proof,
        ) == Err::<WithdrawPlan, MixerError>(MixerError::NullifierUsed),
{
}

/// Initializing a pool whose storage exists and holds a state never plans to
/// create storage again and keeps the stored state, its denomination
/// included, whatever denomination the new call names.
pub proof fn lemma_initialize_idempotent(
    program_id: Seq<u8>,
    payer_is_signer: bool,
    state_key: Seq<u8>,
    state_lamports: u64,
    stored: Seq<u8>,
    v: PoolView,
)
    requires
        state_lamports > 0,
        v.wf(),
        encodes_state(stored, v),
    ensures
        init_decision(program_id, payer_is_signer, state_key, state_lamports, stored.len())
            == if payer_is_signer {
            Ok::<InitPlan, MixerError>(InitPlan::Keep)
        } else {
            Err(MixerError::Unauthorized)
        },
        decode_state(stored).denomination == v.denomination,
{
    crate::state::lemma_state_round_trip(stored, v);
}

} // verus!
