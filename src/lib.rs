//! One-time claim of a fixed allotment from a shared reserve.
//!
//! Each participant may draw `ALLOTMENT` tokens from the vault exactly once.
//! The fact that a participant has claimed is kept in a per-participant claim
//! record; the transfer and the marking of the record happen together or not
//! at all.
use vstd::prelude::*;

pub mod address;
pub mod ledger;

verus! {

/// The fixed amount that each participant may claim (10 tokens of a mint
/// with 6 decimals).
pub const ALLOTMENT: u64 = 10_000_000;

/// The durable per-participant record: whether the allotment was taken.
#[derive(Clone, Copy, Debug, PartialEq, Eq, Structural)]
pub struct ClaimStatus {
    pub claimed: bool,
}

/// Why a claim was refused.
#[derive(Clone, Copy, Debug, PartialEq, Eq, Structural)]
pub enum AirdropError {
    /// The participant's record is already marked claimed.
    AlreadyClaimed,
    /// The vault holds less than one allotment.
    InsufficientReserve,
    /// The vault is not controlled by the derived vault authority.
    AuthorizationMismatch,
    /// The destination balance would exceed the largest token amount.
    Overflow,
}

/// A token account as the claim logic reads it: its controlling authority
/// and its balance.
#[derive(Clone, Copy, Debug)]
pub struct TokenAccount {
    pub owner: [u8; 32],
    pub amount: u64,
}

/// The accounts that one claim reads and writes.
#[derive(Clone, Copy, Debug)]
pub struct Claim {
    /// The claiming participant.
    pub user: [u8; 32],
    /// The participant's claim record.
    pub claim_status: ClaimStatus,
    /// Where the allotment goes.
    pub user_token_account: TokenAccount,
    /// The shared reserve.
    pub vault: TokenAccount,
    /// The derived authority that may move funds out of the vault.
    pub vault_authority: [u8; 32],
}

/// What a token transfer of `amount` from `from` to `to`, signed by
/// `authority`, leaves behind: both accounts after it, or the error.
pub open spec fn transfer_outcome(
    from: TokenAccount,
    to: TokenAccount,
    authority: Seq<u8>,
    amount: u64,
) -> Result<(TokenAccount, TokenAccount), AirdropError> {
    if from.owner@ != authority {
        Err(AirdropError::AuthorizationMismatch)
    } else if from.amount < amount {
        Err(AirdropError::InsufficientReserve)
    } else if to.amount + amount > u64::MAX {
        Err(AirdropError::Overflow)
    } else {
        Ok(
            (
                TokenAccount { owner: from.owner, amount: (from.amount - amount) as u64 },
                TokenAccount { owner: to.owner, amount: (to.amount + amount) as u64 },
            ),
        )
    }
}

/// The accounts after a claim on `c`, and its result. A refused claim
/// changes nothing.
pub open spec fn claim_outcome(c: Claim) -> (Claim, Result<(), AirdropError>) {
    if c.claim_status.claimed {
        (c, Err(AirdropError::AlreadyClaimed))
    } else {
        match transfer_outcome(c.vault, c.user_token_account, c.vault_authority@, ALLOTMENT) {
            Ok((v, u)) => (
                Claim {
                    user: c.user,
                    claim_status: ClaimStatus { claimed: true },
                    user_token_account: u,
                    vault: v,
                    vault_authority: c.vault_authority,
                },
                Ok(()),
            ),
            Err(e) => (c, Err(e)),
        }
    }
}

/// Compares two 32-byte keys.
pub fn same_key(a: &[u8; 32], b: &[u8; 32]) -> (r: bool)
    ensures
        r == (a@ == b@),
{
    let mut i: usize = 0;
    while i < 32
        invariant
            i <= 32,
            a@.len() == 32,
            b@.len() == 32,
            forall|k: int| 0 <= k < i ==> a@[k] == b@[k],
        decreases 32 - i,
    {
        if a[i] != b[i] {
            assert(a@[i as int] != b@[i as int]);
            return false;
        }
        i = i + 1;
    }
    assert(a@ =~= b@);
    true
}

/// Moves `amount` from `from` to `to` on behalf of `authority`. On failure
/// neither account changes.
pub fn transfer(from: &mut TokenAccount, to: &mut TokenAccount, authority: &[u8; 32], amount: u64)
    -> (r: Result<(), AirdropError>)
    ensures
        match transfer_outcome(*old(from), *old(to), authority@, amount) {
            Ok((f, t)) => r is Ok && *final(from) == f && *final(to) == t,
            Err(e) => r == Err::<(), AirdropError>(e) && *final(from) == *old(from) && *final(to)
                == *old(to),
        },
{
    if !same_key(&from.owner, authority) {
        return Err(AirdropError::AuthorizationMismatch);
    }
    if from.amount < amount {
        return Err(AirdropError::InsufficientReserve);
    }
    if to.amount > u64::MAX - amount {
        return Err(AirdropError::Overflow);
    }
    from.amount = from.amount - amount;
    to.amount = to.amount + amount;
    Ok(())
}

/// Claims the allotment for `ctx.user`: refused with `AlreadyClaimed` when
/// the record is marked; otherwise the vault pays `ALLOTMENT` to the user's
/// token account and only then is the record marked. Any refusal leaves
/// every account as it was.
pub fn claim(ctx: &mut Claim) -> (r: Result<(), AirdropError>)
    ensures
        (*final(ctx), r) == claim_outcome(*old(ctx)),
{
    if ctx.claim_status.claimed {
        return Err(AirdropError::AlreadyClaimed);
    }
    let paid = transfer(&mut ctx.vault, &mut ctx.user_token_account, &ctx.vault_authority, ALLOTMENT);
    match paid {
        Ok(()) => {
            ctx.claim_status.claimed = true;
            Ok(())
        },
        Err(e) => Err(e),
    }
}

/// The first step of a claim whose transfer is carried out elsewhere: the
/// amount to pay, or `AlreadyClaimed` when the record is marked.
pub fn begin_claim(status: &ClaimStatus) -> (r: Result<u64, AirdropError>)
    ensures
        status.claimed ==> r == Err::<u64, AirdropError>(AirdropError::AlreadyClaimed),
        !status.claimed ==> r == Ok::<u64, AirdropError>(ALLOTMENT),
{
    if status.claimed {
        Err(AirdropError::AlreadyClaimed)
    } else {
        Ok(ALLOTMENT)
    }
}

/// The last step of a claim whose transfer is carried out elsewhere: marks
/// the record only where the transfer succeeded, and hands its error back
/// otherwise with the record left as it was.
pub fn finish_claim(status: &mut ClaimStatus, paid: Result<(), AirdropError>) -> (r: Result<
    (),
    AirdropError,
>)
    ensures
        paid is Ok ==> final(status).claimed && r is Ok,
        paid is Err ==> *final(status) == *old(status) && r == paid,
{
    match paid {
        Ok(()) => {
            status.claimed = true;
            Ok(())
        },
        Err(e) => Err(e),
    }
}

/// The error of the token program's transfer, by its code, in this
/// library's terms: insufficient funds, owner mismatch and overflow.
pub fn transfer_error(code: u32) -> (r: Option<AirdropError>)
    ensures
        code == 1 ==> r == Some(AirdropError::InsufficientReserve),
        code == 4 ==> r == Some(AirdropError::AuthorizationMismatch),
        code == 14 ==> r == Some(AirdropError::Overflow),
        code != 1 && code != 4 && code != 14 ==> r is None,
{
    if code == 1 {
        Some(AirdropError::InsufficientReserve)
    } else if code == 4 {
        Some(AirdropError::AuthorizationMismatch)
    } else if code == 14 {
        Some(AirdropError::Overflow)
    } else {
        None
    }
}

} // verus!
