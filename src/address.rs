use vstd::prelude::*;

verus! {

/// The program-derived address and bump seed that the host finds for
/// `seeds` under `program_id`, or `None` when no bump seed gives one.
pub uninterp spec fn program_address_of(seeds: Seq<Seq<u8>>, program_id: Seq<u8>) -> Option<(Seq<u8>, u8)>;

/// The byte strings of a list of seeds.
pub open spec fn seeds_view(seeds: Seq<Vec<u8>>) -> Seq<Seq<u8>> {
    seeds.map_values(|s: Vec<u8>| s@)
}

/// The result of an address search, as byte strings.
pub open spec fn found_view(r: Option<([u8; 32], u8)>) -> Option<(Seq<u8>, u8)> {
    match r {
        Some(p) => Some((p.0@, p.1)),
        None => None,
    }
}

/// Relies on `Pubkey::try_find_program_address` of solana_program (from
/// solana-pubkey): the address and bump it finds depend on the seeds and the
/// program id alone, and it gives `None` instead of panicking.
#[verifier::external_body]
fn find_program_address(seeds: &Vec<Vec<u8>>, program_id: &[u8; 32]) -> (r: Option<([u8; 32], u8)>)
    ensures
        found_view(r) == program_address_of(seeds_view(seeds@), program_id@),
{
    let refs: Vec<&[u8]> = seeds.iter().map(|s| s.as_slice()).collect();
    let id = solana_program::pubkey::Pubkey::new_from_array(*program_id);
    solana_program::pubkey::Pubkey::try_find_program_address(&refs, &id).map(
        |(key, bump)| (key.to_bytes(), bump),
    )
}

/// Seed of the pool state's address: the ASCII text `mixer_state`.
pub open spec fn state_seed() -> Seq<u8> {
    seq![109u8, 105, 120, 101, 114, 95, 115, 116, 97, 116, 101]
}

/// Label seed of a nullifier marker's address: the ASCII text `nullifier`.
pub open spec fn nullifier_label() -> Seq<u8> {
    seq![110u8, 117, 108, 108, 105, 102, 105, 101, 114]
}

/// Seeds of the pool state's address.
pub open spec fn state_seeds() -> Seq<Seq<u8>> {
    seq![state_seed()]
}

/// Seeds of the marker address for a nullifier hash.
pub open spec fn nullifier_seeds(nullifier_hash: Seq<u8>) -> Seq<Seq<u8>> {
    seq![nullifier_label(), nullifier_hash]
}

/// The seed bytes of the pool state's address.
pub fn state_seed_bytes() -> (r: Vec<u8>)
    ensures
        r@ == state_seed(),
{
    let r: Vec<u8> = vec![109u8, 105, 120, 101, 114, 95, 115, 116, 97, 116, 101];
    assert(r@ =~= state_seed());
    r
}

/// The label seed bytes of a nullifier marker's address.
pub fn nullifier_label_bytes() -> (r: Vec<u8>)
    ensures
        r@ == nullifier_label(),
{
    let r: Vec<u8> = vec![110u8, 117, 108, 108, 105, 102, 105, 101, 114];
    assert(r@ =~= nullifier_label());
    r
}

/// The address where the pool state lives, with its bump seed.
pub fn state_address(program_id: &[u8; 32]) -> (r: Option<([u8; 32], u8)>)
    ensures
        found_view(r) == program_address_of(state_seeds(), program_id@),
{
    let seeds: Vec<Vec<u8>> = vec![state_seed_bytes()];
    assert(seeds_view(seeds@) =~= state_seeds());
    find_program_address(&seeds, program_id)
}

/// The address of the spent marker for `nullifier_hash`, with its bump seed.
/// Equal hashes give the same address.
pub fn nullifier_address(program_id: &[u8; 32], nullifier_hash: &[u8; 32]) -> (r: Option<
    ([u8; 32], u8),
>)
    ensures
        found_view(r) == program_address_of(nullifier_seeds(nullifier_hash@), program_id@),
{
    let mut hash: Vec<u8> = Vec::new();
    let mut i: usize = 0;
    while i < 32
        invariant
            i <= 32,
            nullifier_hash@.len() == 32,
            hash@ == nullifier_hash@.subrange(0, i as int),
        decreases 32 - i,
    {
        hash.push(nullifier_hash[i]);
        i = i + 1;
        assert(hash@ =~= nullifier_hash@.subrange(0, i as int));
    }
    assert(hash@ =~= nullifier_hash@);
    let seeds: Vec<Vec<u8>> = vec![nullifier_label_bytes(), hash];
    assert(seeds_view(seeds@) =~= nullifier_seeds(nullifier_hash@));
    find_program_address(&seeds, program_id)
}

} // verus!
