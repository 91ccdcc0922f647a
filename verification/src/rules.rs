//! The rules of the four money-moving operations, each as a decision on the
//! records it concerns: given what the ledgers hold for one project (and,
//! for a claim, one investor), either the reason for refusing or the
//! records to store and the value the host has to move.

use vstd::prelude::*;
use crate::math::{
    checked_mul_div, checked_percent_of, lemma_percentage_nonnegative, mul_div, percent_of,
    percentage, pro_rata,
};
use crate::types::{
    AccountId, Balance, Error, Investment, Loan, Project, ProjectStatus, Timestamp,
};

verus! {

/// The time a borrower has to repay: thirty days, in milliseconds.
pub const LOAN_PERIOD: Timestamp = 2_592_000_000;

/// What an accepted deposit comes to.
#[derive(Debug, Clone, Copy, PartialEq, Eq)]
pub struct DepositPlan {
    /// The platform's fee, which the host moves to the platform wallet
    /// before anything is stored, unless it is zero.
    pub fee: Balance,
    /// The project as it is stored once the fee has been moved.
    pub project: Project,
    /// The investor's stake, which takes the place of an earlier one.
    pub investment: Investment,
}

/// What an accepted withdrawal comes to.
#[derive(Debug, Clone, Copy, PartialEq, Eq)]
pub struct WithdrawPlan {
    /// The funding, which the host moves to the creator.
    pub amount: Balance,
    pub project: Project,
    pub loan: Loan,
}

/// What an accepted repayment comes to.
#[derive(Debug, Clone, Copy, PartialEq, Eq)]
pub struct RepayPlan {
    pub project: Project,
    pub loan: Loan,
}

/// What an accepted claim comes to.
#[derive(Debug, Clone, Copy, PartialEq, Eq)]
pub struct ClaimPlan {
    /// The payout, which the host moves to the investor.
    pub share: Balance,
    pub investment: Investment,
}

/// A project as it is created: nothing raised yet, open for deposits.
pub open spec fn spec_new_project(
    creator: AccountId,
    goal_amount: Balance,
    interest_rate: u8,
) -> Project {
    Project {
        creator,
        goal_amount,
        current_funding: 0,
        interest_rate,
        status: ProjectStatus::Active,
    }
}

/// The decision on a deposit of `amount` by `investor` at time `now`.
///
/// Refused, in this order: a zero amount, a missing project, a project that
/// is no longer active. Otherwise the fee is `fee_pct` percent of the
/// amount, rounded down; the rest is credited to the project, which becomes
/// funded once its funding reaches the goal; and the investor's stake is
/// the credited amount, locked until `now + lockup_period`.
pub open spec fn spec_plan_deposit(
    project: Option<Project>,
    fee_pct: u8,
    investor: AccountId,
    amount: Balance,
    now: Timestamp,
    lockup_period: Timestamp,
) -> Result<DepositPlan, Error> {
    if amount == 0 {
        Err(Error::ZeroAmount)
    } else if project is None {
        Err(Error::ProjectNotFound)
    } else if project->0.status != ProjectStatus::Active {
        Err(Error::ProjectNotActive)
    } else {
        let p = project->0;
        let fee = percentage(amount as int, fee_pct as int) as Balance;
        let net = (amount - fee) as Balance;
        let funding = (p.current_funding + net) as Balance;
        Ok(
            DepositPlan {
                fee,
                project: Project {
                    current_funding: funding,
                    status: if funding >= p.goal_amount {
                        ProjectStatus::Funded
                    } else {
                        ProjectStatus::Active
                    },
                    ..p
                },
                investment: Investment {
                    investor,
                    amount: net,
                    lockup_end: (now + lockup_period) as Timestamp,
                    claimed: false,
                },
            },
        )
    }
}

/// Whether the numbers of an accepted deposit stay within their types: the
/// fee within the amount, the end of the lockup within `Timestamp`, the new
/// funding within `Balance`.
pub open spec fn deposit_fits(
    project: Option<Project>,
    fee_pct: u8,
    amount: Balance,
    now: Timestamp,
    lockup_period: Timestamp,
) -> bool {
    amount != 0 && project is Some && project->0.status == ProjectStatus::Active ==> {
        &&& percentage(amount as int, fee_pct as int) <= amount
        &&& now + lockup_period <= Timestamp::MAX
        &&& project->0.current_funding + amount - percentage(amount as int, fee_pct as int)
            <= Balance::MAX
    }
}

/// The decision on a withdrawal by `caller` at time `now`.
///
/// Refused, in this order: a missing project, a caller who is not its
/// creator, a project that is not funded. Otherwise the whole funding goes
/// to the creator, and the loan owes it back with `interest_rate` percent
/// of it, rounded down, within the loan period.
pub open spec fn spec_plan_withdraw(
    project: Option<Project>,
    caller: AccountId,
    now: Timestamp,
) -> Result<WithdrawPlan, Error> {
    if project is None {
        Err(Error::ProjectNotFound)
    } else if caller != project->0.creator {
        Err(Error::Unauthorized)
    } else if project->0.status != ProjectStatus::Funded {
        Err(Error::ProjectNotFunded)
    } else {
        let p = project->0;
        let interest = percentage(p.current_funding as int, p.interest_rate as int);
        Ok(
            WithdrawPlan {
                amount: p.current_funding,
                project: Project { status: ProjectStatus::Borrowed, ..p },
                loan: Loan {
                    amount: p.current_funding,
                    interest_rate: p.interest_rate,
                    total_repayment: (p.current_funding + interest) as Balance,
                    due_date: (now + LOAN_PERIOD) as Timestamp,
                    repaid: false,
                },
            },
        )
    }
}

/// Whether the numbers of an accepted withdrawal stay within their types:
/// the amount owed within `Balance`, the due date within `Timestamp`.
pub open spec fn withdraw_fits(
    project: Option<Project>,
    caller: AccountId,
    now: Timestamp,
) -> bool {
    project is Some && caller == project->0.creator && project->0.status == ProjectStatus::Funded
        ==> {
        &&& project->0.current_funding + percentage(
            project->0.current_funding as int,
            project->0.interest_rate as int,
        ) <= Balance::MAX
        &&& now + LOAN_PERIOD <= Timestamp::MAX
    }
}

/// The decision on a repayment of `amount` by `caller`.
///
/// Refused, in this order: a missing project, a caller who is not its
/// creator, a missing loan, a loan already repaid, an amount below what is
/// owed. Otherwise the loan is repaid and the project with it; what was
/// sent beyond the amount owed is kept.
pub open spec fn spec_plan_repay(
    project: Option<Project>,
    loan: Option<Loan>,
    caller: AccountId,
    amount: Balance,
) -> Result<RepayPlan, Error> {
    if project is None {
        Err(Error::ProjectNotFound)
    } else if caller != project->0.creator {
        Err(Error::Unauthorized)
    } else if loan is None {
        Err(Error::LoanNotFound)
    } else if loan->0.repaid {
        Err(Error::AlreadyRepaid)
    } else if amount < loan->0.total_repayment {
        Err(Error::InsufficientRepayment)
    } else {
        Ok(
            RepayPlan {
                project: Project { status: ProjectStatus::Repaid, ..project->0 },
                loan: Loan { repaid: true, ..loan->0 },
            },
        )
    }
}

/// The decision on a claim made at time `now` by the holder of `investment`.
///
/// Refused, in this order: a missing investment, one already claimed, a
/// missing loan, a loan not yet repaid, a lockup that has not ended, a
/// missing project. Otherwise the payout is the part of the repayment that
/// falls to the stake out of the project's funding, rounded down, and the
/// stake is marked as claimed.
pub open spec fn spec_plan_claim(
    investment: Option<Investment>,
    loan: Option<Loan>,
    project: Option<Project>,
    now: Timestamp,
) -> Result<ClaimPlan, Error> {
    if investment is None {
        Err(Error::InvestmentNotFound)
    } else if investment->0.claimed {
        Err(Error::AlreadyClaimed)
    } else if loan is None {
        Err(Error::LoanNotFound)
    } else if !loan->0.repaid {
        Err(Error::LoanNotRepaid)
    } else if now < investment->0.lockup_end {
        Err(Error::LockupNotExpired)
    } else if project is None {
        Err(Error::ProjectNotFound)
    } else {
        Ok(
            ClaimPlan {
                share: pro_rata(
                    investment->0.amount as int,
                    loan->0.total_repayment as int,
                    project->0.current_funding as int,
                ) as Balance,
                investment: Investment { claimed: true, ..investment->0 },
            },
        )
    }
}

/// Whether the payout of an accepted claim can be computed: the project's
/// funding, by which it is divided, is not zero, and the payout stays
/// within `Balance`.
pub open spec fn claim_fits(
    investment: Option<Investment>,
    loan: Option<Loan>,
    project: Option<Project>,
    now: Timestamp,
) -> bool {
    investment is Some && !investment->0.claimed && loan is Some && loan->0.repaid && now
        >= investment->0.lockup_end && project is Some ==> {
        &&& project->0.current_funding > 0
        &&& pro_rata(
            investment->0.amount as int,
            loan->0.total_repayment as int,
            project->0.current_funding as int,
        ) <= Balance::MAX
    }
}

/// Whether [`plan_deposit`] may be called with these arguments: whether
/// the deposit fits.
pub fn can_plan_deposit(
    project: Option<Project>,
    fee_pct: u8,
    amount: Balance,
    now: Timestamp,
    lockup_period: Timestamp,
) -> (fits: bool)
    ensures
        fits == deposit_fits(project, fee_pct, amount, now, lockup_period),
{
    if amount == 0 {
        return true;
    }
    let p = match project {
        Some(p) => p,
        None => {
            return true;
        },
    };
    if p.status != ProjectStatus::Active {
        return true;
    }
    match checked_percent_of(amount, fee_pct) {
        Some(fee) => fee <= amount && now.checked_add(lockup_period).is_some()
            && p.current_funding.checked_add(amount - fee).is_some(),
        None => false,
    }
}

/// Whether [`plan_withdraw`] may be called with these arguments: whether
/// the withdrawal fits.
pub fn can_plan_withdraw(
    project: Option<Project>,
    caller: AccountId,
    now: Timestamp,
) -> (fits: bool)
    ensures
        fits == withdraw_fits(project, caller, now),
{
    let p = match project {
        Some(p) => p,
        None => {
            return true;
        },
    };
    if caller != p.creator || p.status != ProjectStatus::Funded {
        return true;
    }
    proof {
        lemma_percentage_nonnegative(p.current_funding as int, p.interest_rate as int);
    }
    match checked_percent_of(p.current_funding, p.interest_rate) {
        Some(interest) => p.current_funding.checked_add(interest).is_some() && now.checked_add(
            LOAN_PERIOD,
        ).is_some(),
        None => false,
    }
}

/// Whether [`plan_claim`] may be called with these arguments: whether the
/// payout can be computed.
pub fn can_plan_claim(
    investment: Option<Investment>,
    loan: Option<Loan>,
    project: Option<Project>,
    now: Timestamp,
) -> (fits: bool)
    ensures
        fits == claim_fits(investment, loan, project, now),
{
    match (investment, loan, project) {
        (Some(inv), Some(l), Some(p)) => {
            if inv.claimed || !l.repaid || now < inv.lockup_end {
                true
            } else if p.current_funding == 0 {
                false
            } else {
                checked_mul_div(inv.amount, l.total_repayment, p.current_funding).is_some()
            }
        },
        _ => true,
    }
}

/// Makes the record of a new project.
pub fn new_project(creator: AccountId, goal_amount: Balance, interest_rate: u8) -> (p: Project)
    ensures
        p == spec_new_project(creator, goal_amount, interest_rate),
{
    Project { creator, goal_amount, current_funding: 0, interest_rate, status: ProjectStatus::Active }
}

/// Decides on a deposit: see [`spec_plan_deposit`].
pub fn plan_deposit(
    project: Option<Project>,
    fee_pct: u8,
    investor: AccountId,
    amount: Balance,
    now: Timestamp,
    lockup_period: Timestamp,
) -> (r: Result<DepositPlan, Error>)
    requires
        deposit_fits(project, fee_pct, amount, now, lockup_period),
    ensures
        r == spec_plan_deposit(project, fee_pct, investor, amount, now, lockup_period),
{
    if amount == 0 {
        return Err(Error::ZeroAmount);
    }
    let p = match project {
        Some(p) => p,
        None => {
            return Err(Error::ProjectNotFound);
        },
    };
    if p.status != ProjectStatus::Active {
        return Err(Error::ProjectNotActive);
    }
    let fee = percent_of(amount, fee_pct);
    let net = amount - fee;
    let funding = p.current_funding + net;
    let status = if funding >= p.goal_amount {
        ProjectStatus::Funded
    } else {
        ProjectStatus::Active
    };
    Ok(
        DepositPlan {
            fee,
            project: Project {
                creator: p.creator,
                goal_amount: p.goal_amount,
                current_funding: funding,
                interest_rate: p.interest_rate,
                status,
            },
            investment: Investment {
                investor,
                amount: net,
                lockup_end: now + lockup_period,
                claimed: false,
            },
        },
    )
}

/// Decides on a withdrawal: see [`spec_plan_withdraw`].
pub fn plan_withdraw(
    project: Option<Project>,
    caller: AccountId,
    now: Timestamp,
) -> (r: Result<WithdrawPlan, Error>)
    requires
        withdraw_fits(project, caller, now),
    ensures
        r == spec_plan_withdraw(project, caller, now),
{
    let p = match project {
        Some(p) => p,
        None => {
            return Err(Error::ProjectNotFound);
        },
    };
    if caller != p.creator {
        return Err(Error::Unauthorized);
    }
    if p.status != ProjectStatus::Funded {
        return Err(Error::ProjectNotFunded);
    }
    proof {
        lemma_percentage_nonnegative(p.current_funding as int, p.interest_rate as int);
    }
    let interest = percent_of(p.current_funding, p.interest_rate);
    Ok(
        WithdrawPlan {
            amount: p.current_funding,
            project: Project {
                creator: p.creator,
                goal_amount: p.goal_amount,
                current_funding: p.current_funding,
                interest_rate: p.interest_rate,
                status: ProjectStatus::Borrowed,
            },
            loan: Loan {
                amount: p.current_funding,
                interest_rate: p.interest_rate,
                total_repayment: p.current_funding + interest,
                due_date: now + LOAN_PERIOD,
                repaid: false,
            },
        },
    )
}

/// Decides on a repayment: see [`spec_plan_repay`].
pub fn plan_repay(
    project: Option<Project>,
    loan: Option<Loan>,
    caller: AccountId,
    amount: Balance,
) -> (r: Result<RepayPlan, Error>)
    ensures
        r == spec_plan_repay(project, loan, caller, amount),
{
    let p = match project {
        Some(p) => p,
        None => {
            return Err(Error::ProjectNotFound);
        },
    };
    if caller != p.creator {
        return Err(Error::Unauthorized);
    }
    let l = match loan {
        Some(l) => l,
        None => {
            return Err(Error::LoanNotFound);
        },
    };
    if l.repaid {
        return Err(Error::AlreadyRepaid);
    }
    if amount < l.total_repayment {
        return Err(Error::InsufficientRepayment);
    }
    Ok(
        RepayPlan {
            project: Project {
                creator: p.creator,
                goal_amount: p.goal_amount,
                current_funding: p.current_funding,
                interest_rate: p.interest_rate,
                status: ProjectStatus::Repaid,
            },
            loan: Loan {
                amount: l.amount,
                interest_rate: l.interest_rate,
                total_repayment: l.total_repayment,
                due_date: l.due_date,
                repaid: true,
            },
        },
    )
}

/// Decides on a claim: see [`spec_plan_claim`].
pub fn plan_claim(
    investment: Option<Investment>,
    loan: Option<Loan>,
    project: Option<Project>,
    now: Timestamp,
) -> (r: Result<ClaimPlan, Error>)
    requires
        claim_fits(investment, loan, project, now),
    ensures
        r == spec_plan_claim(investment, loan, project, now),
{
    let inv = match investment {
        Some(inv) => inv,
        None => {
            return Err(Error::InvestmentNotFound);
        },
    };
    if inv.claimed {
        return Err(Error::AlreadyClaimed);
    }
    let l = match loan {
        Some(l) => l,
        None => {
            return Err(Error::LoanNotFound);
        },
    };
    if !l.repaid {
        return Err(Error::LoanNotRepaid);
    }
    if now < inv.lockup_end {
        return Err(Error::LockupNotExpired);
    }
    let p = match project {
        Some(p) => p,
        None => {
            return Err(Error::ProjectNotFound);
        },
    };
    let share = mul_div(inv.amount, l.total_repayment, p.current_funding);
    Ok(
        ClaimPlan {
            share,
            investment: Investment {
                investor: inv.investor,
                amount: inv.amount,
                lockup_end: inv.lockup_end,
                claimed: true,
            },
        },
    )
}

} // verus!
