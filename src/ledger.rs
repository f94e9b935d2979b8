//! The claim ledger: one claim record per participant and the shared vault
//! from which every allotment is paid.
use vstd::prelude::*;
use crate::address::{program_address, vault_authority_address, vault_tag};
use crate::{claim, transfer_outcome, AirdropError, Claim, ClaimStatus, TokenAccount, ALLOTMENT};

verus! {

/// The ledger as plain values: which participants have a record and whether
/// it is marked claimed, the vault, and the vault's derived authority.
pub ghost struct LedgerModel {
    pub records: Map<Seq<u8>, bool>,
    pub vault: TokenAccount,
    pub vault_authority: Seq<u8>,
}

/// Whether `p`'s record exists and is marked claimed.
pub open spec fn is_claimed(m: LedgerModel, p: Seq<u8>) -> bool {
    m.records.contains_key(p) && m.records[p]
}

/// The ledger and destination account after `p` claims into `dest`, and the
/// result. A refused claim changes nothing.
pub open spec fn ledger_claim(m: LedgerModel, p: Seq<u8>, dest: TokenAccount) -> (
    LedgerModel,
    TokenAccount,
    Result<(), AirdropError>,
) {
    if is_claimed(m, p) {
        (m, dest, Err(AirdropError::AlreadyClaimed))
    } else {
        match transfer_outcome(m.vault, dest, m.vault_authority, ALLOTMENT) {
            Ok((v, d)) => (
                LedgerModel {
                    records: m.records.insert(p, true),
                    vault: v,
                    vault_authority: m.vault_authority,
                },
                d,
                Ok(()),
            ),
            Err(e) => (m, dest, Err(e)),
        }
    }
}

/// `n` claims by `p` into `dest` one after the other: the ledger and the
/// destination after them, how many succeeded and how many were refused with
/// `AlreadyClaimed`.
pub open spec fn claims_repeated(m: LedgerModel, p: Seq<u8>, dest: TokenAccount, n: nat) -> (
    LedgerModel,
    TokenAccount,
    nat,
    nat,
)
    decreases n,
{
    if n == 0 {
        (m, dest, 0, 0)
    } else {
        let (m1, d1, r) = ledger_claim(m, p, dest);
        let (mf, df, ok, already) = claims_repeated(m1, p, d1, (n - 1) as nat);
        (
            mf,
            df,
            ok + if r is Ok {
                1nat
            } else {
                0nat
            },
            already + if r == Err::<(), AirdropError>(AirdropError::AlreadyClaimed) {
                1nat
            } else {
                0nat
            },
        )
    }
}

/// One participant's claim record.
#[derive(Clone, Copy, Debug)]
pub struct ClaimEntry {
    pub participant: [u8; 32],
    pub status: ClaimStatus,
}

/// The claim records of all participants, keyed by participant, and the
/// shared vault.
pub struct Ledger {
    records: Vec<ClaimEntry>,
    claims: Ghost<Map<Seq<u8>, bool>>,
    vault: TokenAccount,
    vault_authority: [u8; 32],
}

impl View for Ledger {
    type V = LedgerModel;

    closed spec fn view(&self) -> LedgerModel {
        LedgerModel {
            records: self.claims@,
            vault: self.vault,
            vault_authority: self.vault_authority@,
        }
    }
}

impl Ledger {
    /// One entry per participant, and the entries agree with the model.
    pub closed spec fn wf(&self) -> bool {
        &&& forall|i: int, j: int|
            0 <= i < j < self.records@.len() ==> self.records@[i].participant@
                != self.records@[j].participant@
        &&& forall|i: int|
            0 <= i < self.records@.len() ==> {
                &&& #[trigger] self.claims@.contains_key(self.records@[i].participant@)
                &&& self.claims@[self.records@[i].participant@] == self.records@[i].status.claimed
            }
        &&& forall|p: Seq<u8>|
            #[trigger] self.claims@.contains_key(p) ==> exists|i: int|
                0 <= i < self.records@.len() && self.records@[i].participant@ == p
    }

    /// A ledger with no claim records over `vault`, which `vault_authority`
    /// controls.
    pub fn new(vault: TokenAccount, vault_authority: [u8; 32]) -> (r: Ledger)
        ensures
            r.wf(),
            r@ == (LedgerModel {
                records: Map::empty(),
                vault,
                vault_authority: vault_authority@,
            }),
    {
        Ledger { records: Vec::new(), claims: Ghost(Map::empty()), vault, vault_authority }
    }

    /// A ledger with no claim records over `vault`, controlled by the vault
    /// authority derived under `program_id`; `None` where no such address
    /// can be derived.
    pub fn for_program(vault: TokenAccount, program_id: &[u8; 32]) -> (r: Option<Ledger>)
        ensures
            match program_address(seq![vault_tag()], program_id@) {
                Some((a, _)) => r is Some && r->0.wf() && r->0@ == (LedgerModel {
                    records: Map::empty(),
                    vault,
                    vault_authority: a,
                }),
                None => r is None,
            },
    {
        match vault_authority_address(program_id) {
            Some((authority, _)) => Some(Ledger::new(vault, authority)),
            None => None,
        }
    }

    /// The position of `participant`'s record, if it has one.
    fn find(&self, participant: &[u8; 32]) -> (r: Option<usize>)
        requires
            self.wf(),
        ensures
            match r {
                Some(i) => i < self.records@.len() && self.records@[i as int].participant@
                    == participant@,
                None => !self.claims@.contains_key(participant@),
            },
    {
        let mut i: usize = 0;
        while i < self.records.len()
            invariant
                self.wf(),
                i <= self.records@.len(),
                forall|k: int| 0 <= k < i ==> self.records@[k].participant@ != participant@,
            decreases self.records@.len() - i,
        {
            if crate::same_key(&self.records[i].participant, participant) {
                return Some(i);
            }
            i = i + 1;
        }
        None
    }

    /// Whether `participant`'s record is marked claimed.
    pub fn is_claimed(&self, participant: &[u8; 32]) -> (r: bool)
        requires
            self.wf(),
        ensures
            r == is_claimed(self@, participant@),
    {
        match self.find(participant) {
            Some(i) => {
                assert(self.claims@.contains_key(self.records@[i as int].participant@));
                self.records[i].status.claimed
            },
            None => false,
        }
    }

    /// The vault as it stands.
    pub fn vault(&self) -> (r: TokenAccount)
        ensures
            r == self@.vault,
    {
        self.vault
    }

    /// `participant` claims the allotment into `destination`. Refused with
    /// `AlreadyClaimed` when the participant's record is marked; otherwise the
    /// vault pays and only then is the record created or marked. A refused
    /// claim changes neither the ledger nor the destination.
    pub fn claim(&mut self, participant: &[u8; 32], destination: &mut TokenAccount) -> (r: Result<
        (),
        AirdropError,
    >)
        requires
            old(self).wf(),
        ensures
            final(self).wf(),
            (final(self)@, *final(destination), r) == ledger_claim(
                old(self)@,
                participant@,
                *old(destination),
            ),
    {
        let idx = self.find(participant);
        let status = match idx {
            Some(i) => self.records[i].status,
            None => ClaimStatus { claimed: false },
        };
        proof {
            if let Some(i) = idx {
                assert(self.claims@.contains_key(self.records@[i as int].participant@));
            }
            assert(status.claimed == is_claimed(self@, participant@));
        }
        let mut ctx = Claim {
            user: *participant,
            claim_status: status,
            user_token_account: *destination,
            vault: self.vault,
            vault_authority: self.vault_authority,
        };
        let r = claim(&mut ctx);
        match r {
            Ok(()) => {
                let entry = ClaimEntry { participant: *participant, status: ctx.claim_status };
                match idx {
                    Some(i) => {
                        self.records.set(i, entry);
                    },
                    None => {
                        self.records.push(entry);
                    },
                }
                self.vault = ctx.vault;
                *destination = ctx.user_token_account;
                self.claims = Ghost(self.claims@.insert(participant@, true));
                proof {
                    assert forall|i: int, j: int|
                        0 <= i < j < self.records@.len() implies self.records@[i].participant@
                        != self.records@[j].participant@ by {
                        if idx is None && j == self.records@.len() - 1 {
                            assert(old(self).claims@.contains_key(old(self).records@[i].participant@));
                        }
                    }
                    assert forall|i: int|
                        0 <= i < self.records@.len() implies {
                        &&& #[trigger] self.claims@.contains_key(self.records@[i].participant@)
                        &&& self.claims@[self.records@[i].participant@]
                            == self.records@[i].status.claimed
                    } by {
                        if i < old(self).records@.len() {
                            assert(old(self).claims@.contains_key(old(self).records@[i].participant@));
                        }
                    }
                    assert forall|p: Seq<u8>| #[trigger]
                        self.claims@.contains_key(p) implies exists|i: int|
                        0 <= i < self.records@.len() && self.records@[i].participant@ == p by {
                        if p == participant@ {
                            match idx {
                                Some(i) => assert(self.records@[i as int].participant@ == p),
                                None => assert(self.records@[self.records@.len() - 1].participant@
                                    == p),
                            }
                        } else {
                            assert(old(self).claims@.contains_key(p));
                            let k = choose|k: int|
                                0 <= k < old(self).records@.len()
                                    && old(self).records@[k].participant@ == p;
                            assert(self.records@[k].participant@ == p);
                        }
                    }
                }
                Ok(())
            },
            Err(e) => Err(e),
        }
    }
}

/// A second claim by the same participant is refused with `AlreadyClaimed`
/// and changes nothing, whenever the first succeeded or the record was
/// already marked; two claims never both succeed, and the vault loses at most
/// one allotment over both.
pub proof fn lemma_claim_twice(m: LedgerModel, p: Seq<u8>, dest: TokenAccount)
    ensures
        ({
            let (m1, d1, r1) = ledger_claim(m, p, dest);
            let (m2, d2, r2) = ledger_claim(m1, p, d1);
            &&& (r1 is Ok || is_claimed(m, p)) ==> (r2 == Err::<(), AirdropError>(
                AirdropError::AlreadyClaimed) && m2 == m1 && d2 == d1)
            &&& !(r1 is Ok && r2 is Ok)
            &&& (m2.vault.amount == m.vault.amount || m2.vault.amount == m.vault.amount
                - ALLOTMENT)
        }),
{
}

/// Once `p`'s record is marked, any number of further claims are all refused
/// with `AlreadyClaimed` and change nothing.
pub proof fn lemma_claimed_is_terminal(m: LedgerModel, p: Seq<u8>, dest: TokenAccount, n: nat)
    requires
        is_claimed(m, p),
    ensures
        claims_repeated(m, p, dest, n) == (m, dest, 0nat, n),
    decreases n,
{
    if n > 0 {
        lemma_claimed_is_terminal(m, p, dest, (n - 1) as nat);
    }
}

/// Of `n` claims by the same participant, serialized one after another, at
/// most one succeeds and the vault loses at most one allotment. Where the
/// participant had not claimed and the vault can pay, exactly one succeeds,
/// the other `n - 1` are refused with `AlreadyClaimed`, and the vault loses
/// exactly one allotment.
pub proof fn lemma_no_double_spend(m: LedgerModel, p: Seq<u8>, dest: TokenAccount, n: nat)
    ensures
        ({
            let (mf, df, ok, already) = claims_repeated(m, p, dest, n);
            &&& ok <= 1
            &&& mf.vault.amount == m.vault.amount || mf.vault.amount == m.vault.amount
                - ALLOTMENT
            &&& (n >= 1 && !is_claimed(m, p) && transfer_outcome(
                m.vault,
                dest,
                m.vault_authority,
                ALLOTMENT,
            ) is Ok) ==> {
                &&& ok == 1
                &&& already == n - 1
                &&& mf.vault.amount == m.vault.amount - ALLOTMENT
                &&& is_claimed(mf, p)
            }
        }),
    decreases n,
{
    if n > 0 {
        let (m1, d1, r) = ledger_claim(m, p, dest);
        if is_claimed(m1, p) {
            lemma_claimed_is_terminal(m1, p, d1, (n - 1) as nat);
        } else {
            lemma_no_double_spend(m1, p, d1, (n - 1) as nat);
        }
    }
}

/// A claim that fails leaves the ledger and the destination as they were: in
/// particular the claimant's record still reads unclaimed if it did before.
pub proof fn lemma_failed_claim_leaves_record(m: LedgerModel, p: Seq<u8>, dest: TokenAccount)
    ensures
        ({
            let (m1, d1, r) = ledger_claim(m, p, dest);
            r is Err ==> (m1 == m && d1 == dest && is_claimed(m1, p) == is_claimed(m, p))
        }),
{
}

/// Claims by two distinct participants do not interfere: one's claim leaves
/// the other's record as it was, and where neither has claimed and the vault
/// can pay both, both succeed in either order and reach the same ledger.
pub proof fn lemma_independent_claims(
    m: LedgerModel,
    p1: Seq<u8>,
    p2: Seq<u8>,
    d1: TokenAccount,
    d2: TokenAccount,
)
    requires
        p1 != p2,
    ensures
        is_claimed(ledger_claim(m, p1, d1).0, p2) == is_claimed(m, p2),
        is_claimed(ledger_claim(m, p2, d2).0, p1) == is_claimed(m, p1),
        ({
            let (ma, d1a, ra1) = ledger_claim(m, p1, d1);
            let (mab, d2b, rb2) = ledger_claim(ma, p2, d2);
            let (mb, d2a, ra2) = ledger_claim(m, p2, d2);
            let (mba, d1b, rb1) = ledger_claim(mb, p1, d1);
            (!is_claimed(m, p1) && !is_claimed(m, p2) && m.vault.owner@ == m.vault_authority
                && m.vault.amount >= 2 * ALLOTMENT && d1.amount + ALLOTMENT <= u64::MAX
                && d2.amount + ALLOTMENT <= u64::MAX) ==> {
                &&& ra1 is Ok && rb2 is Ok && ra2 is Ok && rb1 is Ok
                &&& d1a == d1b && d2b == d2a
                &&& mab == mba
            }
        }),
{
    let (ma, d1a, ra1) = ledger_claim(m, p1, d1);
    let (mab, d2b, rb2) = ledger_claim(ma, p2, d2);
    let (mb, d2a, ra2) = ledger_claim(m, p2, d2);
    let (mba, d1b, rb1) = ledger_claim(mb, p1, d1);
    if !is_claimed(m, p1) && !is_claimed(m, p2) && m.vault.owner@ == m.vault_authority
        && m.vault.amount >= 2 * ALLOTMENT && d1.amount + ALLOTMENT <= u64::MAX && d2.amount
        + ALLOTMENT <= u64::MAX {
        assert(mab.records =~= mba.records);
    }
}

} // verus!
