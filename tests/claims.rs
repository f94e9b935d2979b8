use airdrop_program::address::{
    claim_seeds, claim_status_address, vault_authority_address, vault_seeds, vault_signer_seeds,
};
use airdrop_program::ledger::Ledger;
use airdrop_program::{
    begin_claim, claim, finish_claim, same_key, transfer, transfer_error, AirdropError, Claim,
    ClaimStatus, TokenAccount, ALLOTMENT,
};
use anchor_lang::prelude::Pubkey;

const AUTHORITY: [u8; 32] = [7u8; 32];

fn key(b: u8) -> [u8; 32] {
    let mut k = [0u8; 32];
    k[0] = b;
    k[31] = b;
    k
}

fn account(owner: [u8; 32], amount: u64) -> TokenAccount {
    TokenAccount { owner, amount }
}

fn ledger(amount: u64) -> Ledger {
    Ledger::new(account(AUTHORITY, amount), AUTHORITY)
}

#[test]
fn scenario_two_allotments_three_participants() {
    let mut l = ledger(20_000_000);
    let (p1, p2, p3) = (key(1), key(2), key(3));
    let mut d1 = account(p1, 0);
    let mut d2 = account(p2, 0);
    let mut d3 = account(p3, 0);

    assert_eq!(l.claim(&p1, &mut d1), Ok(()));
    assert_eq!(l.vault().amount, 10_000_000);
    assert_eq!(d1.amount, 10_000_000);

    assert_eq!(l.claim(&p1, &mut d1), Err(AirdropError::AlreadyClaimed));
    assert_eq!(l.vault().amount, 10_000_000);
    assert_eq!(d1.amount, 10_000_000);

    assert_eq!(l.claim(&p2, &mut d2), Ok(()));
    assert_eq!(l.vault().amount, 0);
    assert_eq!(d2.amount, 10_000_000);

    assert_eq!(l.claim(&p3, &mut d3), Err(AirdropError::InsufficientReserve));
    assert!(!l.is_claimed(&p3));
    assert_eq!(d3.amount, 0);
    assert!(l.is_claimed(&p1));
    assert!(l.is_claimed(&p2));
}

#[test]
fn second_claim_is_refused() {
    let mut l = ledger(100_000_000);
    let p = key(9);
    let mut d = account(p, 5);
    assert_eq!(l.claim(&p, &mut d), Ok(()));
    assert_eq!(l.claim(&p, &mut d), Err(AirdropError::AlreadyClaimed));
    assert_eq!(l.vault().amount, 90_000_000);
    assert_eq!(d.amount, 10_000_005);
}

#[test]
fn repeated_claims_pay_once() {
    let mut l = ledger(50_000_000);
    let p = key(4);
    let mut d = account(p, 0);
    let mut ok = 0;
    let mut already = 0;
    for _ in 0..6 {
        match l.claim(&p, &mut d) {
            Ok(()) => ok += 1,
            Err(AirdropError::AlreadyClaimed) => already += 1,
            Err(e) => panic!("unexpected {:?}", e),
        }
    }
    assert_eq!(ok, 1);
    assert_eq!(already, 5);
    assert_eq!(l.vault().amount, 40_000_000);
    assert_eq!(d.amount, ALLOTMENT);
}

#[test]
fn failed_claim_leaves_record_unclaimed() {
    let mut l = ledger(ALLOTMENT - 1);
    let p = key(5);
    let mut d = account(p, 0);
    assert_eq!(l.claim(&p, &mut d), Err(AirdropError::InsufficientReserve));
    assert!(!l.is_claimed(&p));
    assert_eq!(l.vault().amount, ALLOTMENT - 1);
    assert_eq!(d.amount, 0);
}

#[test]
fn distinct_participants_are_independent() {
    let (p1, p2) = (key(1), key(2));
    let mut a = ledger(2 * ALLOTMENT);
    let mut b = ledger(2 * ALLOTMENT);
    let (mut a1, mut a2) = (account(p1, 0), account(p2, 0));
    let (mut b1, mut b2) = (account(p1, 0), account(p2, 0));
    assert_eq!(a.claim(&p1, &mut a1), Ok(()));
    assert!(!a.is_claimed(&p2));
    assert_eq!(a.claim(&p2, &mut a2), Ok(()));
    assert_eq!(b.claim(&p2, &mut b2), Ok(()));
    assert!(!b.is_claimed(&p1));
    assert_eq!(b.claim(&p1, &mut b1), Ok(()));
    assert_eq!(a.vault().amount, 0);
    assert_eq!(b.vault().amount, 0);
    assert_eq!(a1.amount, b1.amount);
    assert_eq!(a2.amount, b2.amount);
}

#[test]
fn foreign_vault_is_refused() {
    let mut l = Ledger::new(account(key(8), 100_000_000), AUTHORITY);
    let p = key(1);
    let mut d = account(p, 0);
    assert_eq!(l.claim(&p, &mut d), Err(AirdropError::AuthorizationMismatch));
    assert!(!l.is_claimed(&p));
    assert_eq!(l.vault().amount, 100_000_000);
}

#[test]
fn destination_overflow_is_refused() {
    let mut l = ledger(100_000_000);
    let p = key(1);
    let mut d = account(p, u64::MAX - ALLOTMENT + 1);
    assert_eq!(l.claim(&p, &mut d), Err(AirdropError::Overflow));
    assert!(!l.is_claimed(&p));
    let mut e = account(p, u64::MAX - ALLOTMENT);
    assert_eq!(l.claim(&p, &mut e), Ok(()));
    assert_eq!(e.amount, u64::MAX);
}

#[test]
fn claim_on_accounts() {
    let mut ctx = Claim {
        user: key(3),
        claim_status: ClaimStatus { claimed: false },
        user_token_account: account(key(3), 1),
        vault: account(AUTHORITY, 15_000_000),
        vault_authority: AUTHORITY,
    };
    assert_eq!(claim(&mut ctx), Ok(()));
    assert!(ctx.claim_status.claimed);
    assert_eq!(ctx.vault.amount, 5_000_000);
    assert_eq!(ctx.user_token_account.amount, 10_000_001);
    assert_eq!(claim(&mut ctx), Err(AirdropError::AlreadyClaimed));
    assert_eq!(ctx.vault.amount, 5_000_000);
}

#[test]
fn claim_on_accounts_without_funds() {
    let mut ctx = Claim {
        user: key(3),
        claim_status: ClaimStatus { claimed: false },
        user_token_account: account(key(3), 0),
        vault: account(AUTHORITY, 9_999_999),
        vault_authority: AUTHORITY,
    };
    assert_eq!(claim(&mut ctx), Err(AirdropError::InsufficientReserve));
    assert!(!ctx.claim_status.claimed);
    assert_eq!(ctx.vault.amount, 9_999_999);
}

#[test]
fn transfer_moves_exact_amount() {
    let mut from = account(AUTHORITY, 30);
    let mut to = account(key(1), 12);
    assert_eq!(transfer(&mut from, &mut to, &AUTHORITY, 30), Ok(()));
    assert_eq!((from.amount, to.amount), (0, 42));
    assert_eq!(transfer(&mut from, &mut to, &AUTHORITY, 1), Err(AirdropError::InsufficientReserve));
    assert_eq!((from.amount, to.amount), (0, 42));
}

#[test]
fn keys_compare_bytewise() {
    assert!(same_key(&key(1), &key(1)));
    assert!(!same_key(&key(1), &key(2)));
    let mut k = key(1);
    k[17] = 3;
    assert!(!same_key(&key(1), &k));
}

#[test]
fn steps_of_an_external_transfer() {
    let mut s = ClaimStatus { claimed: false };
    assert_eq!(begin_claim(&s), Ok(ALLOTMENT));
    assert_eq!(finish_claim(&mut s, Err(AirdropError::InsufficientReserve)), Err(AirdropError::InsufficientReserve));
    assert!(!s.claimed);
    assert_eq!(finish_claim(&mut s, Ok(())), Ok(()));
    assert!(s.claimed);
    assert_eq!(begin_claim(&s), Err(AirdropError::AlreadyClaimed));
}

#[test]
fn token_program_error_codes() {
    assert_eq!(transfer_error(1), Some(AirdropError::InsufficientReserve));
    assert_eq!(transfer_error(4), Some(AirdropError::AuthorizationMismatch));
    assert_eq!(transfer_error(14), Some(AirdropError::Overflow));
    assert_eq!(transfer_error(0), None);
}

#[test]
fn seeds_carry_tags() {
    let user = key(6);
    let s = claim_seeds(&user);
    assert_eq!(s, vec![b"claim".to_vec(), user.to_vec()]);
    assert_eq!(vault_seeds(), vec![b"vault".to_vec()]);
    assert_eq!(vault_signer_seeds(254), vec![b"vault".to_vec(), vec![254u8]]);
}

#[test]
fn derived_addresses_match_the_runtime() {
    let program_id = key(42);
    let id = Pubkey::new_from_array(program_id);
    let user = key(6);
    let (rec, bump) = claim_status_address(&user, &program_id).unwrap();
    let (exp, exp_bump) = Pubkey::find_program_address(&[b"claim", &user], &id);
    assert_eq!(rec, exp.to_bytes());
    assert_eq!(bump, exp_bump);
    assert_ne!(rec, user);
    assert_ne!(rec, program_id);
    let (auth, abump) = vault_authority_address(&program_id).unwrap();
    let (exp_auth, exp_abump) = Pubkey::find_program_address(&[b"vault"], &id);
    assert_eq!(auth, exp_auth.to_bytes());
    assert_eq!(abump, exp_abump);
    let (other, _) = claim_status_address(&key(7), &program_id).unwrap();
    assert_ne!(rec, other);
}

#[test]
fn ledger_under_derived_authority() {
    let program_id = key(42);
    let (auth, _) = Pubkey::find_program_address(&[b"vault"], &Pubkey::new_from_array(program_id));
    let mut l = Ledger::for_program(account(auth.to_bytes(), 25_000_000), &program_id).unwrap();
    let p = key(1);
    let mut d = account(p, 0);
    assert_eq!(l.claim(&p, &mut d), Ok(()));
    assert_eq!(l.vault().amount, 15_000_000);
    let mut m = Ledger::for_program(account(program_id, 25_000_000), &program_id).unwrap();
    assert_eq!(m.claim(&p, &mut d), Err(AirdropError::AuthorizationMismatch));
}
