//! The claim ledger: the record of the wins that were claimed and confirmed.

use vstd::prelude::*;
use vstd::string::*;

verus! {

/// What a claimant says to have filled.
#[derive(Clone, Copy, Debug, PartialEq, Eq, Structural)]
pub enum ClaimType {
    OneLine,
    TwoLines,
    FullBoard,
}

/// The claim type that the code `how` stands for, if it stands for one.
pub open spec fn claim_type_of(how: i32) -> Option<ClaimType> {
    if how == 1 {
        Some(ClaimType::OneLine)
    } else if how == 2 {
        Some(ClaimType::TwoLines)
    } else if how == 3 {
        Some(ClaimType::FullBoard)
    } else {
        None
    }
}

/// The code of a claim type: the number of lines, and 3 for the full board.
pub open spec fn code_of(claim_type: ClaimType) -> i32 {
    match claim_type {
        ClaimType::OneLine => 1,
        ClaimType::TwoLines => 2,
        ClaimType::FullBoard => 3,
    }
}

/// How a claim type is named to the person who verifies the claim.
pub open spec fn description_of(claim_type: ClaimType) -> Seq<char> {
    match claim_type {
        ClaimType::OneLine => "1 række."@,
        ClaimType::TwoLines => "2 rækker."@,
        ClaimType::FullBoard => "hele pladen!"@,
    }
}

impl ClaimType {
    /// The claim type that the code `how` stands for. Only 1, 2 and 3 stand
    /// for one.
    pub fn from_code(how: i32) -> (claim_type: Option<ClaimType>)
        ensures
            claim_type == claim_type_of(how),
    {
        if how == 1 {
            Some(ClaimType::OneLine)
        } else if how == 2 {
            Some(ClaimType::TwoLines)
        } else if how == 3 {
            Some(ClaimType::FullBoard)
        } else {
            None
        }
    }

    /// The code of this claim type.
    pub fn code(self) -> (how: i32)
        ensures
            how == code_of(self),
            claim_type_of(how) == Some(self),
    {
        match self {
            ClaimType::OneLine => 1,
            ClaimType::TwoLines => 2,
            ClaimType::FullBoard => 3,
        }
    }

    /// How this claim type is named to the person who verifies the claim.
    pub fn description(self) -> (text: &'static str)
        ensures
            text@ == description_of(self),
    {
        match self {
            ClaimType::OneLine => "1 række.",
            ClaimType::TwoLines => "2 rækker.",
            ClaimType::FullBoard => "hele pladen!",
        }
    }
}

/// One confirmed claim as it stands in the ledger.
#[derive(Clone, Debug, PartialEq, Eq)]
pub struct Claim {
    pub id: i32,
    pub claimant_name: String,
    pub claim_type: ClaimType,
    pub recorded_at: u64,
}

/// Why the ledger refused a write.
#[derive(Clone, Copy, Debug, PartialEq, Eq, Structural)]
pub enum LedgerError {
    /// The claim could not be written: the id sequence is used up.
    Persistence,
}

/// The ids of the claims grow strictly from each claim to the next.
pub open spec fn claim_ids_ascending(claims: Seq<Claim>) -> bool {
    forall|i: int, j: int| 0 <= i < j < claims.len() ==> claims[i].id < claims[j].id
}

/// The id that the next claim recorded after `claims` receives.
pub open spec fn next_claim_id(claims: Seq<Claim>) -> int {
    if claims.len() == 0 {
        1
    } else {
        claims.last().id + 1
    }
}

/// A copy of `claim`.
fn duplicate(claim: &Claim) -> (copy: Claim)
    ensures
        copy == *claim,
{
    Claim {
        id: claim.id,
        claimant_name: claim.claimant_name.clone(),
        claim_type: claim.claim_type,
        recorded_at: claim.recorded_at,
    }
}

/// The ledger of confirmed claims. Its view holds the claims in the order
/// in which they were recorded. A claim, once recorded, is never changed or
/// removed.
#[derive(Debug)]
pub struct ClaimLedger {
    claims: Vec<Claim>,
}

impl View for ClaimLedger {
    type V = Seq<Claim>;

    closed spec fn view(&self) -> Seq<Claim> {
        self.claims@
    }
}

impl ClaimLedger {
    /// The ledger is well formed: the ids of its claims ascend.
    pub open spec fn wf(&self) -> bool {
        claim_ids_ascending(self@)
    }

    /// An empty ledger.
    pub fn new() -> (ledger: ClaimLedger)
        ensures
            ledger.wf(),
            ledger@ == Seq::<Claim>::empty(),
    {
        ClaimLedger { claims: Vec::new() }
    }

    /// A ledger that holds `claims`, the oldest first.
    ///
    /// Returns `None` exactly when the ids of `claims` do not ascend.
    pub fn from_claims(claims: Vec<Claim>) -> (r: Option<ClaimLedger>)
        ensures
            r is Some <==> claim_ids_ascending(claims@),
            r matches Some(ledger) ==> ledger.wf() && ledger@ == claims@,
    {
        let n = claims.len();
        let mut i: usize = 1;
        while i < n
            invariant
                n == claims.len(),
                1 <= i,
                forall|a: int, b: int| 0 <= a < b < i && b < n ==> claims[a].id < claims[b].id,
            decreases n - i,
        {
            if claims[i - 1].id >= claims[i].id {
                return None;
            }
            i += 1;
        }
        Some(ClaimLedger { claims })
    }

    /// Number of claims in the ledger.
    pub fn len(&self) -> (n: usize)
        ensures
            n == self@.len(),
    {
        self.claims.len()
    }

    /// Records a claim of `claim_type` by `name`, at `now`, under the next
    /// id of the sequence.
    ///
    /// Fails with `LedgerError::Persistence`, leaving the ledger as it was,
    /// exactly when the id sequence is used up.
    pub fn record_claim(&mut self, name: String, claim_type: ClaimType, now: u64) -> (r: Result<
        i32,
        LedgerError,
    >)
        requires
            old(self).wf(),
        ensures
            final(self).wf(),
            r is Ok <==> next_claim_id(old(self)@) <= i32::MAX,
            r matches Ok(id) ==> id == next_claim_id(old(self)@) && final(self)@ == old(self)@.push(
                Claim { id, claimant_name: name, claim_type, recorded_at: now },
            ),
            r is Err ==> final(self)@ == old(self)@,
    {
        let n = self.claims.len();
        let id: i32 = if n == 0 {
            1
        } else {
            let last = self.claims[n - 1].id;
            if last == i32::MAX {
                return Err(LedgerError::Persistence);
            }
            last + 1
        };
        self.claims.push(Claim { id, claimant_name: name, claim_type, recorded_at: now });
        Ok(id)
    }

    /// All claims, the most recent first.
    pub fn list_claims(&self) -> (claims: Vec<Claim>)
        ensures
            claims@ == self@.reverse(),
    {
        let n = self.claims.len();
        let mut claims: Vec<Claim> = Vec::new();
        let mut left: usize = n;
        while left > 0
            invariant
                n == self.claims.len(),
                left <= n,
                claims@.len() == n - left,
                forall|k: int| 0 <= k < claims@.len() ==> claims@[k] == self.claims@[n - 1 - k],
            decreases left,
        {
            left -= 1;
            claims.push(duplicate(&self.claims[left]));
        }
        assert(claims@ =~= self@.reverse());
        claims
    }
}

} // verus!
