//! Runs of operations: what a call is, whether the state takes it, and the
//! state that a sequence of calls leads to.

use vstd::prelude::*;
use crate::model::{has_stake, Ledger, LendingState};
use crate::types::{AccountId, Balance, ProjectStatus, Timestamp};

verus! {

/// One call of an operation, with all that the host hands in.
pub enum Op {
    CreateProject { caller: AccountId, goal_amount: Balance, interest_rate: u8 },
    Deposit {
        caller: AccountId,
        now: Timestamp,
        amount: Balance,
        project_id: u32,
        lockup_period: Timestamp,
        transferred: bool,
    },
    Withdraw { caller: AccountId, now: Timestamp, project_id: u32, transferred: bool },
    Repay { caller: AccountId, amount: Balance, project_id: u32 },
    Claim { caller: AccountId, now: Timestamp, project_id: u32, transferred: bool },
}

impl LendingState {
    /// Whether the call goes through: its numbers stay within their types
    /// and the operation succeeds.
    pub open spec fn accepts(self, op: Op) -> bool {
        match op {
            Op::CreateProject { caller, goal_amount, interest_rate } => self.next_project_id
                < u32::MAX,
            Op::Deposit { caller, now, amount, project_id, lockup_period, transferred } => {
                &&& self.deposit_fits(now, amount, project_id, lockup_period)
                &&& self.deposit_result(
                    caller,
                    now,
                    amount,
                    project_id,
                    lockup_period,
                    transferred,
                ) is Ok
            },
            Op::Withdraw { caller, now, project_id, transferred } => {
                &&& self.withdraw_fits(caller, now, project_id)
                &&& self.withdraw_result(caller, now, project_id, transferred) is Ok
            },
            Op::Repay { caller, amount, project_id } => self.repay_result(
                caller,
                amount,
                project_id,
            ) is Ok,
            Op::Claim { caller, now, project_id, transferred } => self.claim_result(
                caller,
                now,
                project_id,
                transferred,
            ) is Ok,
        }
    }

    /// The state after the call: what the operation makes of it where the
    /// call goes through, the same state where it does not.
    pub open spec fn after(self, op: Op) -> LendingState {
        if !self.accepts(op) {
            self
        } else {
            match op {
                Op::CreateProject { caller, goal_amount, interest_rate } => self.after_create_project(
                    caller,
                    goal_amount,
                    interest_rate,
                ),
                Op::Deposit {
                    caller,
                    now,
                    amount,
                    project_id,
                    lockup_period,
                    transferred,
                } => self.after_deposit(caller, now, amount, project_id, lockup_period, transferred),
                Op::Withdraw { caller, now, project_id, transferred } => self.after_withdraw(
                    caller,
                    now,
                    project_id,
                    transferred,
                ),
                Op::Repay { caller, amount, project_id } => self.after_repay(
                    caller,
                    amount,
                    project_id,
                ),
                Op::Claim { caller, now, project_id, transferred } => self.after_claim(
                    caller,
                    now,
                    project_id,
                    transferred,
                ),
            }
        }
    }

    /// The state after the calls of `ops`, one after the other.
    pub open spec fn after_all(self, ops: Seq<Op>) -> LendingState
        decreases ops.len(),
    {
        if ops.len() == 0 {
            self
        } else {
            self.after_all(ops.drop_last()).after(ops.last())
        }
    }

    /// Whether the call is a deposit that goes through and replaces a stake
    /// that its investor already has in the project.
    pub open spec fn replaces_stake(self, op: Op) -> bool {
        &&& op is Deposit
        &&& self.accepts(op)
        &&& self.investment(op->Deposit_project_id, op->Deposit_caller) is Some
    }

    /// Whether some call of `ops`, in the state it meets, replaces a stake.
    pub open spec fn replaces_some_stake(self, ops: Seq<Op>) -> bool
        decreases ops.len(),
    {
        ops.len() > 0 && (self.replaces_some_stake(ops.drop_last()) || self.after_all(
            ops.drop_last(),
        ).replaces_stake(ops.last()))
    }

    /// Every project's funding is exactly what its stakes add up to.
    pub open spec fn all_backed(self) -> bool {
        forall|i: int| 0 <= i < self.ledgers.len() ==> (#[trigger] self.ledgers[i]).backed()
    }
}

/// What can become of a project's ledger over time: `later` may follow
/// `earlier`.
///
/// Creator, goal and interest rate stay. The status does not go back. The
/// funding does not fall, and stays as it is once the project is no longer
/// active; from then on the stakes stay too, but for being claimed. A loan,
/// once made, stays as it was made, but for being repaid. An investor with
/// a stake keeps one, and what is claimed or repaid stays so.
pub open spec fn may_follow(earlier: Ledger, later: Ledger) -> bool {
    let p = earlier.project;
    let q = later.project;
    &&& q.creator == p.creator
    &&& q.goal_amount == p.goal_amount
    &&& q.interest_rate == p.interest_rate
    &&& p.status.stage() <= q.status.stage()
    &&& p.current_funding <= q.current_funding
    &&& p.status != ProjectStatus::Active ==> {
        &&& q.current_funding == p.current_funding
        &&& later.investments.len() == earlier.investments.len()
        &&& forall|i: int|
            0 <= i < earlier.investments.len() ==> {
                &&& (#[trigger] later.investments[i]).investor == earlier.investments[i].investor
                &&& later.investments[i].amount == earlier.investments[i].amount
                &&& later.investments[i].lockup_end == earlier.investments[i].lockup_end
                &&& earlier.investments[i].claimed ==> later.investments[i].claimed
            }
    }
    &&& earlier.loan is Some ==> {
        &&& later.loan is Some
        &&& later.loan->0.amount == earlier.loan->0.amount
        &&& later.loan->0.interest_rate == earlier.loan->0.interest_rate
        &&& later.loan->0.total_repayment == earlier.loan->0.total_repayment
        &&& later.loan->0.due_date == earlier.loan->0.due_date
        &&& earlier.loan->0.repaid ==> later.loan->0.repaid
    }
    &&& forall|who: AccountId| #[trigger]
        has_stake(earlier.investments, who) ==> has_stake(later.investments, who)
}

} // verus!
