//! Deterministic addresses of the claim records and of the vault authority.
//!
//! Both are program-derived addresses: a pure function of a namespace tag,
//! optional further seeds and the program's id, found together with the bump
//! seed that moves them off the ed25519 curve.
use vstd::prelude::*;

verus! {

/// The program-derived address for `seeds` under `program_id`, with its bump
/// seed, or `None` where no bump yields one.
pub uninterp spec fn program_address(seeds: Seq<Seq<u8>>, program_id: Seq<u8>) -> Option<(Seq<u8>, u8)>;

/// The namespace tag of claim records: the bytes of `claim`.
pub open spec fn claim_tag() -> Seq<u8> {
    seq![99u8, 108u8, 97u8, 105u8, 109u8]
}

/// The namespace tag of the vault authority: the bytes of `vault`.
pub open spec fn vault_tag() -> Seq<u8> {
    seq![118u8, 97u8, 117u8, 108u8, 116u8]
}

/// An address with its bump seed, as plain values.
pub open spec fn found_view(r: Option<([u8; 32], u8)>) -> Option<(Seq<u8>, u8)> {
    match r {
        Some((a, b)) => Some((a@, b)),
        None => None,
    }
}

/// Relies on `Pubkey::try_find_program_address` of solana-program (through
/// anchor-lang): the address and bump depend on the seeds and the program id
/// alone.
#[verifier::external_body]
fn find_program_address(seeds: &Vec<Vec<u8>>, program_id: &[u8; 32]) -> (r: Option<([u8; 32], u8)>)
    ensures
        found_view(r) == program_address(seeds.deep_view(), program_id@),
{
    let parts: Vec<&[u8]> = seeds.iter().map(|s| s.as_slice()).collect();
    let id = anchor_lang::prelude::Pubkey::new_from_array(*program_id);
    match anchor_lang::prelude::Pubkey::try_find_program_address(&parts, &id) {
        Some((a, b)) => Some((a.to_bytes(), b)),
        None => None,
    }
}

/// The seeds of `user`'s claim record: the claim tag, then the user's key.
pub fn claim_seeds(user: &[u8; 32]) -> (r: Vec<Vec<u8>>)
    ensures
        r.deep_view() == seq![claim_tag(), user@],
{
    let tag: Vec<u8> = vec![99u8, 108u8, 97u8, 105u8, 109u8];
    let mut key: Vec<u8> = Vec::new();
    let mut i: usize = 0;
    while i < 32
        invariant
            i <= 32,
            user@.len() == 32,
            key@ == user@.subrange(0, i as int),
        decreases 32 - i,
    {
        key.push(user[i]);
        i = i + 1;
    }
    assert(key@ =~= user@);
    assert(tag.deep_view() =~= claim_tag());
    assert(key.deep_view() =~= user@);
    let r: Vec<Vec<u8>> = vec![tag, key];
    assert(r.deep_view() =~= seq![claim_tag(), user@]);
    r
}

/// The seeds of the vault authority: the vault tag alone.
pub fn vault_seeds() -> (r: Vec<Vec<u8>>)
    ensures
        r.deep_view() == seq![vault_tag()],
{
    let tag: Vec<u8> = vec![118u8, 97u8, 117u8, 108u8, 116u8];
    assert(tag.deep_view() =~= vault_tag());
    let r: Vec<Vec<u8>> = vec![tag];
    assert(r.deep_view() =~= seq![vault_tag()]);
    r
}

/// The seeds with which the vault authority signs: the vault tag, then its
/// bump seed.
pub fn vault_signer_seeds(bump: u8) -> (r: Vec<Vec<u8>>)
    ensures
        r.deep_view() == seq![vault_tag(), seq![bump]],
{
    let tag: Vec<u8> = vec![118u8, 97u8, 117u8, 108u8, 116u8];
    let b: Vec<u8> = vec![bump];
    assert(tag.deep_view() =~= vault_tag());
    assert(b.deep_view() =~= seq![bump]);
    let r: Vec<Vec<u8>> = vec![tag, b];
    assert(r.deep_view() =~= seq![vault_tag(), seq![bump]]);
    r
}

/// The address of `user`'s claim record under `program_id`, with its bump.
pub fn claim_status_address(user: &[u8; 32], program_id: &[u8; 32]) -> (r: Option<([u8; 32], u8)>)
    ensures
        found_view(r) == program_address(seq![claim_tag(), user@], program_id@),
{
    let seeds = claim_seeds(user);
    find_program_address(&seeds, program_id)
}

/// The address of the vault authority under `program_id`, with its bump.
pub fn vault_authority_address(program_id: &[u8; 32]) -> (r: Option<([u8; 32], u8)>)
    ensures
        found_view(r) == program_address(seq![vault_tag()], program_id@),
{
    let seeds = vault_seeds();
    find_program_address(&seeds, program_id)
}

} // verus!
