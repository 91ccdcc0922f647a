//! The records the ledgers hold, the failures and the events.

use vstd::prelude::*;
use vstd::std_specs::cmp::PartialEqSpecImpl;

verus! {

/// An amount of value, in the smallest unit of the asset.
pub type Balance = u128;

/// A point on the host's clock, or a span of it, in milliseconds.
pub type Timestamp = u64;

/// The identity of a party, as the host authenticated it. Two identities are
/// the same party exactly when their bytes agree.
#[derive(Debug, Clone, Copy, Eq, Hash)]
pub struct AccountId(pub [u8; 32]);

impl PartialEq for AccountId {
    fn eq(&self, other: &Self) -> (r: bool) {
        let mut i: usize = 0;
        while i < 32
            invariant
                i <= 32,
                forall|k: int| 0 <= k < i ==> self.0@[k] == other.0@[k],
            decreases 32 - i,
        {
            if self.0[i] != other.0[i] {
                return false;
            }
            i += 1;
        }
        proof {
            assert(self.0@ =~= other.0@);
            assert(self.0 =~= other.0);
        }
        true
    }
}

impl PartialEqSpecImpl for AccountId {
    open spec fn obeys_eq_spec() -> bool {
        true
    }

    open spec fn eq_spec(&self, other: &Self) -> bool {
        *self == *other
    }
}

/// Where a project stands in its life. It only moves forward.
#[derive(Debug, Clone, Copy, PartialEq, Eq, Structural)]
pub enum ProjectStatus {
    Active,
    Funded,
    Borrowed,
    Repaid,
}

impl ProjectStatus {
    /// How far along a project is: a status never gives way to one of a
    /// lower stage.
    pub open spec fn stage(self) -> nat {
        match self {
            ProjectStatus::Active => 0,
            ProjectStatus::Funded => 1,
            ProjectStatus::Borrowed => 2,
            ProjectStatus::Repaid => 3,
        }
    }
}

/// A funding campaign.
#[derive(Debug, Clone, Copy, PartialEq, Eq)]
pub struct Project {
    pub creator: AccountId,
    pub goal_amount: Balance,
    pub current_funding: Balance,
    pub interest_rate: u8,
    pub status: ProjectStatus,
}

/// One investor's stake in one project.
#[derive(Debug, Clone, Copy, PartialEq, Eq)]
pub struct Investment {
    pub investor: AccountId,
    /// What was credited to the project: the deposit less the platform fee.
    pub amount: Balance,
    /// The earliest time at which the payout may be claimed.
    pub lockup_end: Timestamp,
    pub claimed: bool,
}

/// The obligation a creator takes on by borrowing a project's funding.
#[derive(Debug, Clone, Copy, PartialEq, Eq)]
pub struct Loan {
    /// The principal: the project's funding when the loan was made.
    pub amount: Balance,
    pub interest_rate: u8,
    /// Principal plus interest, fixed when the loan was made.
    pub total_repayment: Balance,
    pub due_date: Timestamp,
    pub repaid: bool,
}

/// Why an operation was refused. A refused operation changes nothing.
#[derive(Debug, Clone, Copy, PartialEq, Eq, Structural)]
pub enum Error {
    ZeroAmount,
    ProjectNotFound,
    ProjectNotActive,
    TransferFailed,
    Unauthorized,
    ProjectNotFunded,
    LoanNotFound,
    LoanNotRepaid,
    LockupNotExpired,
    AlreadyClaimed,
    AlreadyRepaid,
    InsufficientRepayment,
    InvestmentNotFound,
}

/// A movement of value that the host is asked to carry out.
#[derive(Debug, Clone, Copy, PartialEq, Eq)]
pub struct Transfer {
    pub to: AccountId,
    pub amount: Balance,
}

/// An investor paid into a project.
#[derive(Debug, Clone, Copy, PartialEq, Eq)]
pub struct Deposited {
    pub project_id: u32,
    pub investor: AccountId,
    /// What the investor sent.
    pub amount: Balance,
    /// What the project was credited with.
    pub net_amount: Balance,
}

/// A creator borrowed a project's funding.
#[derive(Debug, Clone, Copy, PartialEq, Eq)]
pub struct Withdrawn {
    pub project_id: u32,
    pub creator: AccountId,
    pub amount: Balance,
}

/// A creator repaid a project's loan.
#[derive(Debug, Clone, Copy, PartialEq, Eq)]
pub struct Repaid {
    pub project_id: u32,
    /// What the creator sent, which may exceed what was owed.
    pub amount: Balance,
}

/// An investor collected the payout of a stake.
#[derive(Debug, Clone, Copy, PartialEq, Eq)]
pub struct Claimed {
    pub project_id: u32,
    pub investor: AccountId,
    pub amount: Balance,
}

} // verus!
