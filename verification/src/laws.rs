//! What holds of the operations whatever the calls, proved over the model
//! of the state.

use vstd::prelude::*;
use crate::history::{may_follow, Op};
use crate::math::{lemma_percentage_below, lemma_pro_rata_bounds, percentage, pro_rata};
use crate::model::{
    has_stake, lemma_claim_fits, lemma_after_claim_wf, lemma_after_deposit_wf, lemma_after_repay_wf,
    lemma_after_withdraw_wf, lemma_create_project_wf, lemma_initial_wf,
    lemma_total_invested_nonnegative,
    lemma_with_stake, stake_of, stake_position, total_invested, total_payouts, Ledger, LendingState,
};
use crate::rules::{spec_new_project, LOAN_PERIOD};
use crate::types::{
    AccountId, Balance, Error, Investment, ProjectStatus, Timestamp, Transfer,
};

verus! {

/// The two states differ in nothing but the ledger of one project.
pub open spec fn differs_only_at(s: LendingState, t: LendingState, project_id: u32) -> bool {
    &&& t.platform_wallet == s.platform_wallet
    &&& t.platform_fee == s.platform_fee
    &&& t.next_project_id == s.next_project_id
    &&& t.ledgers.len() == s.ledgers.len()
    &&& forall|other: u32|
        other != project_id && s.has_project(other) ==> #[trigger] t.ledger(other) == s.ledger(
            other,
        )
}

/// A new project gets an id that no project had, reads as it was created,
/// with no stake and no loan, and leaves every other project as it was.
pub proof fn law_create_project_reads(
    s: LendingState,
    caller: AccountId,
    goal_amount: Balance,
    interest_rate: u8,
)
    requires
        s.wf(),
        s.next_project_id < u32::MAX,
    ensures
        ({
            let id = s.next_project_id;
            let t = s.after_create_project(caller, goal_amount, interest_rate);
            &&& !s.has_project(id)
            &&& t.project(id) == Some(spec_new_project(caller, goal_amount, interest_rate))
            &&& t.loan(id) is None
            &&& forall|who: AccountId| t.investment(id, who) is None
            &&& t.next_project_id == id + 1
            &&& forall|other: u32|
                s.has_project(other) ==> t.has_project(other) && #[trigger] t.ledger(other)
                    == s.ledger(other)
        }),
{
}

/// After a deposit that succeeded, the project and the caller's stake read
/// as the rules decided; every other stake, the loan and every other
/// project read as before.
pub proof fn law_deposit_reads(
    s: LendingState,
    caller: AccountId,
    now: Timestamp,
    amount: Balance,
    project_id: u32,
    lockup_period: Timestamp,
    transferred: bool,
)
    requires
        s.wf(),
        s.deposit_result(caller, now, amount, project_id, lockup_period, transferred) is Ok,
    ensures
        ({
            let t = s.after_deposit(caller, now, amount, project_id, lockup_period, transferred);
            let plan = s.plan_deposit(caller, now, amount, project_id, lockup_period)->Ok_0;
            &&& t.project(project_id) == Some(plan.project)
            &&& t.investment(project_id, caller) == Some(plan.investment)
            &&& forall|who: AccountId|
                who != caller ==> t.investment(project_id, who) == s.investment(project_id, who)
            &&& t.loan(project_id) == s.loan(project_id)
            &&& differs_only_at(s, t, project_id)
        }),
{
    let plan = s.plan_deposit(caller, now, amount, project_id, lockup_period)->Ok_0;
    assert(s.ledger(project_id).wf());
    lemma_with_stake(s.ledger(project_id).investments, plan.investment);
}

/// After a withdrawal that succeeded, the project is borrowed and its loan
/// reads as the rules decided; the stakes and every other project read as
/// before.
pub proof fn law_withdraw_reads(
    s: LendingState,
    caller: AccountId,
    now: Timestamp,
    project_id: u32,
    transferred: bool,
)
    requires
        s.wf(),
        s.withdraw_result(caller, now, project_id, transferred) is Ok,
    ensures
        ({
            let t = s.after_withdraw(caller, now, project_id, transferred);
            let plan = s.plan_withdraw(caller, now, project_id)->Ok_0;
            &&& t.project(project_id) == Some(plan.project)
            &&& plan.project.status == ProjectStatus::Borrowed
            &&& t.loan(project_id) == Some(plan.loan)
            &&& forall|who: AccountId|
                t.investment(project_id, who) == s.investment(project_id, who)
            &&& differs_only_at(s, t, project_id)
        }),
{
}

/// After a repayment that succeeded, the project and its loan read as
/// repaid; the stakes and every other project read as before.
pub proof fn law_repay_reads(s: LendingState, caller: AccountId, amount: Balance, project_id: u32)
    requires
        s.wf(),
        s.repay_result(caller, amount, project_id) is Ok,
    ensures
        ({
            let t = s.after_repay(caller, amount, project_id);
            let plan = s.plan_repay(caller, amount, project_id)->Ok_0;
            &&& t.project(project_id) == Some(plan.project)
            &&& plan.project.status == ProjectStatus::Repaid
            &&& t.loan(project_id) == Some(plan.loan)
            &&& plan.loan.repaid
            &&& forall|who: AccountId|
                t.investment(project_id, who) == s.investment(project_id, who)
            &&& differs_only_at(s, t, project_id)
        }),
{
}

/// After a claim that succeeded, the caller's stake reads as claimed and is
/// otherwise as before; every other stake, the project, the loan and every
/// other project read as before.
pub proof fn law_claim_reads(
    s: LendingState,
    caller: AccountId,
    now: Timestamp,
    project_id: u32,
    transferred: bool,
)
    requires
        s.wf(),
        s.claim_result(caller, now, project_id, transferred) is Ok,
    ensures
        ({
            let t = s.after_claim(caller, now, project_id, transferred);
            let before = s.investment(project_id, caller)->0;
            &&& t.investment(project_id, caller) == Some(Investment { claimed: true, ..before })
            &&& forall|who: AccountId|
                who != caller ==> t.investment(project_id, who) == s.investment(project_id, who)
            &&& t.project(project_id) == s.project(project_id)
            &&& t.loan(project_id) == s.loan(project_id)
            &&& differs_only_at(s, t, project_id)
        }),
{
    let plan = s.plan_claim(caller, now, project_id)->Ok_0;
    assert(s.ledger(project_id).wf());
    lemma_with_stake(s.ledger(project_id).investments, plan.investment);
}

/// An operation that fails leaves the whole state as it was.
pub proof fn law_failure_changes_nothing(
    s: LendingState,
    caller: AccountId,
    now: Timestamp,
    amount: Balance,
    project_id: u32,
    lockup_period: Timestamp,
    transferred: bool,
)
    ensures
        s.deposit_result(caller, now, amount, project_id, lockup_period, transferred) is Err
            ==> s.after_deposit(caller, now, amount, project_id, lockup_period, transferred) == s,
        s.withdraw_result(caller, now, project_id, transferred) is Err ==> s.after_withdraw(
            caller,
            now,
            project_id,
            transferred,
        ) == s,
        s.repay_result(caller, amount, project_id) is Err ==> s.after_repay(
            caller,
            amount,
            project_id,
        ) == s,
        s.claim_result(caller, now, project_id, transferred) is Err ==> s.after_claim(
            caller,
            now,
            project_id,
            transferred,
        ) == s,
{
}

/// A transfer that did not go through fails the operation that needed it,
/// and no operation fails for that reason otherwise.
pub proof fn law_transfer_decides_last(
    s: LendingState,
    caller: AccountId,
    now: Timestamp,
    amount: Balance,
    project_id: u32,
    lockup_period: Timestamp,
    transferred: bool,
)
    ensures
        s.deposit_result(caller, now, amount, project_id, lockup_period, transferred) matches Err(
            Error::TransferFailed,
        ) <==> !transferred && s.deposit_transfer(caller, now, amount, project_id, lockup_period)
            matches Ok(Some(_)),
        s.withdraw_result(caller, now, project_id, transferred) matches Err(Error::TransferFailed)
            <==> !transferred && s.withdraw_transfer(caller, now, project_id) is Ok,
        s.claim_result(caller, now, project_id, transferred) matches Err(Error::TransferFailed)
            <==> !transferred && s.claim_transfer(caller, now, project_id) is Ok,
        !(s.repay_result(caller, amount, project_id) matches Err(Error::TransferFailed)),
{
}

/// A deposit into a project that is no longer active fails, and unless it
/// is a deposit of nothing, for that reason: a project is funded once.
pub proof fn law_deposit_needs_active(
    s: LendingState,
    caller: AccountId,
    now: Timestamp,
    amount: Balance,
    project_id: u32,
    lockup_period: Timestamp,
    transferred: bool,
)
    requires
        s.project(project_id) is Some,
        s.project(project_id)->0.status != ProjectStatus::Active,
    ensures
        amount == 0 ==> s.deposit_result(
            caller,
            now,
            amount,
            project_id,
            lockup_period,
            transferred,
        ) matches Err(Error::ZeroAmount),
        amount != 0 ==> s.deposit_result(
            caller,
            now,
            amount,
            project_id,
            lockup_period,
            transferred,
        ) matches Err(Error::ProjectNotActive),
{
}

/// Every call keeps the state well formed.
pub proof fn law_step_keeps_wf(s: LendingState, op: Op)
    requires
        s.wf(),
    ensures
        s.after(op).wf(),
{
    if s.accepts(op) {
        match op {
            Op::CreateProject { caller, goal_amount, interest_rate } => {
                lemma_create_project_wf(s, caller, goal_amount, interest_rate);
            },
            Op::Deposit { caller, now, amount, project_id, lockup_period, transferred } => {
                lemma_after_deposit_wf(
                    s,
                    caller,
                    now,
                    amount,
                    project_id,
                    lockup_period,
                    transferred,
                );
            },
            Op::Withdraw { caller, now, project_id, transferred } => {
                lemma_after_withdraw_wf(s, caller, now, project_id, transferred);
            },
            Op::Repay { caller, amount, project_id } => {
                lemma_after_repay_wf(s, caller, amount, project_id);
            },
            Op::Claim { caller, now, project_id, transferred } => {
                lemma_after_claim_wf(s, caller, now, project_id, transferred);
            },
        }
    }
}

/// Every run of calls keeps the state well formed.
pub proof fn law_run_keeps_wf(s: LendingState, ops: Seq<Op>)
    requires
        s.wf(),
    ensures
        s.after_all(ops).wf(),
    decreases ops.len(),
{
    if ops.len() > 0 {
        law_run_keeps_wf(s, ops.drop_last());
        law_step_keeps_wf(s.after_all(ops.drop_last()), ops.last());
    }
}

/// A deposit that succeeds adds what is left of the amount after the fee,
/// which is more than nothing, to the funding of an active project that had
/// not reached its goal; the project is funded from then on exactly if the
/// new funding reaches the goal.
pub proof fn law_deposit_funds_at_goal(
    s: LendingState,
    caller: AccountId,
    now: Timestamp,
    amount: Balance,
    project_id: u32,
    lockup_period: Timestamp,
    transferred: bool,
)
    requires
        s.wf(),
        s.deposit_fits(now, amount, project_id, lockup_period),
        s.deposit_result(caller, now, amount, project_id, lockup_period, transferred) is Ok,
    ensures
        ({
            let t = s.after_deposit(caller, now, amount, project_id, lockup_period, transferred);
            let p = s.project(project_id)->0;
            let q = t.project(project_id)->0;
            let net = amount - percentage(amount as int, s.platform_fee as int);
            &&& p.status == ProjectStatus::Active
            &&& p.current_funding == 0 || p.current_funding < p.goal_amount
            &&& 0 < net <= amount
            &&& q.current_funding == p.current_funding + net
            &&& q.status == if q.current_funding >= q.goal_amount {
                ProjectStatus::Funded
            } else {
                ProjectStatus::Active
            }
            &&& t.investment(project_id, caller)->0.amount == net
        }),
{
    lemma_percentage_below(amount as int, s.platform_fee as int);
    assert(s.ledger(project_id).wf());
    law_deposit_reads(s, caller, now, amount, project_id, lockup_period, transferred);
}

/// What may follow a ledger may be followed in turn.
pub proof fn lemma_may_follow_transitive(a: Ledger, b: Ledger, c: Ledger)
    requires
        may_follow(a, b),
        may_follow(b, c),
    ensures
        may_follow(a, c),
{
    if a.project.status != ProjectStatus::Active {
        assert forall|i: int| 0 <= i < a.investments.len() implies {
            &&& (#[trigger] c.investments[i]).investor == a.investments[i].investor
            &&& c.investments[i].amount == a.investments[i].amount
            &&& c.investments[i].lockup_end == a.investments[i].lockup_end
            &&& a.investments[i].claimed ==> c.investments[i].claimed
        } by {
            assert(b.investments[i].investor == a.investments[i].investor);
        }
    }
    assert forall|who: AccountId| #[trigger] has_stake(a.investments, who) implies has_stake(
        c.investments,
        who,
    ) by {
        assert(has_stake(b.investments, who));
    }
}

/// No call sets a project back: see [`may_follow`].
pub proof fn law_step_moves_forward(s: LendingState, op: Op, project_id: u32)
    requires
        s.wf(),
        s.has_project(project_id),
    ensures
        s.after(op).has_project(project_id),
        may_follow(s.ledger(project_id), s.after(op).ledger(project_id)),
{
    let t = s.after(op);
    let before = s.ledger(project_id);
    assert(before.wf());
    if s.accepts(op) {
        match op {
            Op::CreateProject { caller, goal_amount, interest_rate } => {},
            Op::Deposit { caller, now, amount, project_id: target, lockup_period, transferred } => {
                if target == project_id {
                    let plan = s.plan_deposit(caller, now, amount, target, lockup_period)->Ok_0;
                    lemma_percentage_below(amount as int, s.platform_fee as int);
                    lemma_with_stake(before.investments, plan.investment);
                    let after = t.ledger(project_id);
                    assert forall|who: AccountId| #[trigger]
                        has_stake(before.investments, who) implies has_stake(
                        after.investments,
                        who,
                    ) by {
                        if who != caller {
                            assert(stake_of(after.investments, who)
                                == stake_of(before.investments, who));
                        }
                    }
                }
            },
            Op::Withdraw { caller, now, project_id: target, transferred } => {},
            Op::Repay { caller, amount, project_id: target } => {},
            Op::Claim { caller, now, project_id: target, transferred } => {
                if target == project_id {
                    let plan = s.plan_claim(caller, now, target)->Ok_0;
                    lemma_with_stake(before.investments, plan.investment);
                    let k = stake_position(before.investments, caller);
                    assert(before.investments[k].investor == caller);
                    let after = t.ledger(project_id);
                    assert forall|who: AccountId| #[trigger]
                        has_stake(before.investments, who) implies has_stake(
                        after.investments,
                        who,
                    ) by {
                        if who != caller {
                            assert(stake_of(after.investments, who)
                                == stake_of(before.investments, who));
                        }
                    }
                }
            },
        }
    }
}

/// No run of calls sets a project back: its status never returns to an
/// earlier one, its funding is frozen once it is no longer active, its loan
/// is never made anew, and what is claimed or repaid stays so.
pub proof fn law_run_moves_forward(s: LendingState, ops: Seq<Op>, project_id: u32)
    requires
        s.wf(),
        s.has_project(project_id),
    ensures
        s.after_all(ops).has_project(project_id),
        may_follow(s.ledger(project_id), s.after_all(ops).ledger(project_id)),
    decreases ops.len(),
{
    if ops.len() > 0 {
        let mid = s.after_all(ops.drop_last());
        law_run_moves_forward(s, ops.drop_last(), project_id);
        law_run_keeps_wf(s, ops.drop_last());
        law_step_moves_forward(mid, ops.last(), project_id);
        lemma_may_follow_transitive(
            s.ledger(project_id),
            mid.ledger(project_id),
            mid.after(ops.last()).ledger(project_id),
        );
    } else {
        assert(s.ledger(project_id).wf());
    }
}

/// A call keeps every project's funding equal to the sum of its stakes,
/// unless it is a deposit that replaces a stake.
pub proof fn law_step_keeps_backed(s: LendingState, op: Op)
    requires
        s.wf(),
        s.all_backed(),
        !s.replaces_stake(op),
    ensures
        s.after(op).all_backed(),
{
    let t = s.after(op);
    if s.accepts(op) {
        match op {
            Op::CreateProject { caller, goal_amount, interest_rate } => {
                assert forall|i: int| 0 <= i < t.ledgers.len() implies (
                #[trigger] t.ledgers[i]).backed() by {
                    if i < s.ledgers.len() {
                        assert(s.ledgers[i].backed());
                    }
                }
            },
            Op::Deposit { caller, now, amount, project_id, lockup_period, transferred } => {
                let plan = s.plan_deposit(caller, now, amount, project_id, lockup_period)->Ok_0;
                let before = s.ledger(project_id);
                assert(before.wf() && before.backed());
                lemma_percentage_below(amount as int, s.platform_fee as int);
                lemma_with_stake(before.investments, plan.investment);
                assert forall|i: int| 0 <= i < t.ledgers.len() implies (
                #[trigger] t.ledgers[i]).backed() by {
                    assert(s.ledgers[i].backed());
                }
            },
            Op::Withdraw { caller, now, project_id, transferred } => {
                assert forall|i: int| 0 <= i < t.ledgers.len() implies (
                #[trigger] t.ledgers[i]).backed() by {
                    assert(s.ledgers[i].backed());
                }
            },
            Op::Repay { caller, amount, project_id } => {
                assert forall|i: int| 0 <= i < t.ledgers.len() implies (
                #[trigger] t.ledgers[i]).backed() by {
                    assert(s.ledgers[i].backed());
                }
            },
            Op::Claim { caller, now, project_id, transferred } => {
                let plan = s.plan_claim(caller, now, project_id)->Ok_0;
                let before = s.ledger(project_id);
                assert(before.wf() && before.backed());
                lemma_with_stake(before.investments, plan.investment);
                assert forall|i: int| 0 <= i < t.ledgers.len() implies (
                #[trigger] t.ledgers[i]).backed() by {
                    assert(s.ledgers[i].backed());
                }
            },
        }
    }
}

/// Through every run of calls in which no deposit replaces a stake, the
/// funding of every project stays equal to the sum of its stakes.
pub proof fn law_run_keeps_backed(s: LendingState, ops: Seq<Op>)
    requires
        s.wf(),
        s.all_backed(),
        !s.replaces_some_stake(ops),
    ensures
        s.after_all(ops).all_backed(),
    decreases ops.len(),
{
    if ops.len() > 0 {
        law_run_keeps_backed(s, ops.drop_last());
        law_run_keeps_wf(s, ops.drop_last());
        law_step_keeps_backed(s.after_all(ops.drop_last()), ops.last());
    }
}

/// From the start, as long as no deposit replaces a stake, the funding of
/// every project is the sum of its stakes.
pub proof fn law_funding_is_backed(platform_wallet: AccountId, ops: Seq<Op>)
    requires
        !LendingState::initial(platform_wallet).replaces_some_stake(ops),
    ensures
        LendingState::initial(platform_wallet).after_all(ops).all_backed(),
        LendingState::initial(platform_wallet).after_all(ops).wf(),
{
    lemma_initial_wf(platform_wallet);
    law_run_keeps_backed(LendingState::initial(platform_wallet), ops);
    law_run_keeps_wf(LendingState::initial(platform_wallet), ops);
}

/// A withdrawal from a project that is not funded fails, and if its creator
/// asks, for that reason.
pub proof fn law_withdraw_needs_funded(
    s: LendingState,
    caller: AccountId,
    now: Timestamp,
    project_id: u32,
    transferred: bool,
)
    requires
        s.project(project_id) is Some,
        s.project(project_id)->0.status != ProjectStatus::Funded,
    ensures
        s.withdraw_result(caller, now, project_id, transferred) is Err,
        caller == s.project(project_id)->0.creator ==> s.withdraw_result(
            caller,
            now,
            project_id,
            transferred,
        ) matches Err(Error::ProjectNotFunded),
{
}

/// After a withdrawal that succeeded, another one by the same caller fails:
/// the project is no longer funded but borrowed.
pub proof fn law_withdraw_once(
    s: LendingState,
    caller: AccountId,
    now: Timestamp,
    project_id: u32,
    transferred: bool,
    later: Timestamp,
    transferred_later: bool,
)
    requires
        s.wf(),
        s.withdraw_result(caller, now, project_id, transferred) is Ok,
    ensures
        s.after_withdraw(caller, now, project_id, transferred).withdraw_result(
            caller,
            later,
            project_id,
            transferred_later,
        ) matches Err(Error::ProjectNotFunded),
{
}

/// A claim on a project that is not repaid fails: for want of a stake, else
/// for want of a loan, else because the loan is not repaid.
pub proof fn law_claim_needs_repayment(
    s: LendingState,
    caller: AccountId,
    now: Timestamp,
    project_id: u32,
    transferred: bool,
)
    requires
        s.wf(),
        s.project(project_id) is Some,
        s.project(project_id)->0.status != ProjectStatus::Repaid,
    ensures
        s.investment(project_id, caller) is None ==> s.claim_result(
            caller,
            now,
            project_id,
            transferred,
        ) matches Err(Error::InvestmentNotFound),
        s.investment(project_id, caller) is Some && s.loan(project_id) is None ==> s.claim_result(
            caller,
            now,
            project_id,
            transferred,
        ) matches Err(Error::LoanNotFound),
        s.investment(project_id, caller) is Some && s.loan(project_id) is Some ==> s.claim_result(
            caller,
            now,
            project_id,
            transferred,
        ) matches Err(Error::LoanNotRepaid),
        s.loan(project_id) is Some <==> s.project(project_id)->0.status == ProjectStatus::Borrowed,
{
    let ledger = s.ledger(project_id);
    assert(ledger.wf());
    if has_stake(ledger.investments, caller) {
        let k = stake_position(ledger.investments, caller);
        assert(!ledger.investments[k].claimed);
    }
}

/// A claim before the end of the stake's lockup fails, and in a repaid
/// project, where the stake is not claimed yet, for that reason.
pub proof fn law_claim_needs_lockup_end(
    s: LendingState,
    caller: AccountId,
    now: Timestamp,
    project_id: u32,
    transferred: bool,
)
    requires
        s.wf(),
        s.investment(project_id, caller) is Some,
        now < s.investment(project_id, caller)->0.lockup_end,
    ensures
        s.claim_result(caller, now, project_id, transferred) is Err,
        s.project(project_id)->0.status == ProjectStatus::Repaid && !s.investment(
            project_id,
            caller,
        )->0.claimed ==> s.claim_result(caller, now, project_id, transferred) matches Err(
            Error::LockupNotExpired,
        ),
{
    assert(s.ledger(project_id).wf());
}

/// After a claim that succeeded, another one by the same investor fails,
/// whenever it is made: the stake is already claimed.
pub proof fn law_claim_once(
    s: LendingState,
    caller: AccountId,
    now: Timestamp,
    project_id: u32,
    transferred: bool,
    later: Timestamp,
    transferred_later: bool,
)
    requires
        s.wf(),
        s.claim_result(caller, now, project_id, transferred) is Ok,
    ensures
        s.after_claim(caller, now, project_id, transferred).claim_result(
            caller,
            later,
            project_id,
            transferred_later,
        ) matches Err(Error::AlreadyClaimed),
{
    law_claim_reads(s, caller, now, project_id, transferred);
}

/// A repayment of less than the loan owes fails and leaves the loan as it
/// was; if the creator makes it on a loan not yet repaid, it fails for
/// being too little.
pub proof fn law_short_repayment_refused(
    s: LendingState,
    caller: AccountId,
    amount: Balance,
    project_id: u32,
)
    requires
        s.loan(project_id) is Some,
        amount < s.loan(project_id)->0.total_repayment,
    ensures
        s.repay_result(caller, amount, project_id) is Err,
        s.after_repay(caller, amount, project_id) == s,
        caller == s.project(project_id)->0.creator && !s.loan(project_id)->0.repaid
            ==> s.repay_result(caller, amount, project_id) matches Err(
            Error::InsufficientRepayment,
        ),
{
}

/// The payouts of some stakes, times the funding, are at most what is
/// repaid times the sum of the stakes.
proof fn lemma_payouts_scaled(investments: Seq<Investment>, total_repayment: int, funding: int)
    requires
        0 <= total_repayment,
        0 < funding,
        total_invested(investments) <= funding,
    ensures
        0 <= total_payouts(investments, total_repayment, funding),
        total_payouts(investments, total_repayment, funding) * funding <= total_repayment
            * total_invested(investments),
    decreases investments.len(),
{
    if investments.len() > 0 {
        let rest = investments.drop_last();
        let last = investments.last().amount as int;
        lemma_total_invested_nonnegative(rest);
        lemma_payouts_scaled(rest, total_repayment, funding);
        lemma_pro_rata_bounds(last, total_repayment, funding);
        let a = total_payouts(rest, total_repayment, funding);
        let b = pro_rata(last, total_repayment, funding);
        let x = total_invested(rest);
        assert((a + b) * funding <= total_repayment * (x + last)) by (nonlinear_arith)
            requires
                a * funding <= total_repayment * x,
                b * funding <= last * total_repayment,
        ;
    } else {
        assert(0 * funding <= total_repayment * 0) by (nonlinear_arith);
    }
}

/// All the payouts of a project together are at most what was repaid on
/// its loan. Rounding down may leave some of it unclaimed.
pub proof fn law_payouts_within_repayment(ledger: Ledger)
    requires
        ledger.wf(),
        ledger.loan is Some,
    ensures
        0 <= total_payouts(
            ledger.investments,
            ledger.loan->0.total_repayment as int,
            ledger.project.current_funding as int,
        ) <= ledger.loan->0.total_repayment,
{
    let t = ledger.loan->0.total_repayment as int;
    let f = ledger.project.current_funding as int;
    let paid = total_payouts(ledger.investments, t, f);
    let sum = total_invested(ledger.investments);
    lemma_payouts_scaled(ledger.investments, t, f);
    assert(paid <= t) by (nonlinear_arith)
        requires
            paid * f <= t * sum,
            sum <= f,
            0 < f,
            0 <= t,
            0 <= paid,
    ;
}

/// What a withdrawal that succeeds sets up: the whole funding goes to the
/// creator, who owes it back with the interest on it, rounded down, within
/// the loan period.
pub proof fn law_loan_terms(
    s: LendingState,
    caller: AccountId,
    now: Timestamp,
    project_id: u32,
    transferred: bool,
)
    requires
        s.wf(),
        s.withdraw_fits(caller, now, project_id),
        s.withdraw_result(caller, now, project_id, transferred) is Ok,
    ensures
        ({
            let t = s.after_withdraw(caller, now, project_id, transferred);
            let p = s.project(project_id)->0;
            let loan = t.loan(project_id)->0;
            &&& caller == p.creator
            &&& s.withdraw_transfer(caller, now, project_id) == Ok::<Transfer, Error>(
                Transfer { to: caller, amount: p.current_funding },
            )
            &&& s.withdraw_result(caller, now, project_id, transferred)->Ok_0.amount
                == p.current_funding
            &&& loan.amount == p.current_funding
            &&& loan.interest_rate == p.interest_rate
            &&& loan.total_repayment == p.current_funding + percentage(
                p.current_funding as int,
                p.interest_rate as int,
            )
            &&& loan.due_date == now + LOAN_PERIOD
            &&& !loan.repaid
            &&& t.project(project_id)->0.current_funding == p.current_funding
        }),
{
}

/// The sum of the payouts of the stakes of `investments` that are claimed.
pub open spec fn paid_out(investments: Seq<Investment>, total_repayment: int, funding: int) -> int
    decreases investments.len(),
{
    if investments.len() == 0 {
        0
    } else {
        paid_out(investments.drop_last(), total_repayment, funding) + if investments.last().claimed {
            pro_rata(investments.last().amount as int, total_repayment, funding)
        } else {
            0
        }
    }
}

/// What is paid out is part of what all the stakes together are entitled to.
proof fn lemma_paid_out_within_payouts(
    investments: Seq<Investment>,
    total_repayment: int,
    funding: int,
)
    requires
        0 <= total_repayment,
        0 < funding,
    ensures
        0 <= paid_out(investments, total_repayment, funding) <= total_payouts(
            investments,
            total_repayment,
            funding,
        ),
    decreases investments.len(),
{
    if investments.len() > 0 {
        lemma_paid_out_within_payouts(investments.drop_last(), total_repayment, funding);
        let last = investments.last().amount as int;
        assert(0 <= last * total_repayment) by (nonlinear_arith)
            requires
                0 <= last,
                0 <= total_repayment,
        ;
        vstd::arithmetic::div_mod::lemma_div_pos_is_pos(last * total_repayment, funding);
    }
}

/// Marking a stake as claimed adds its payout to what is paid out.
proof fn lemma_paid_out_claim(
    investments: Seq<Investment>,
    k: int,
    total_repayment: int,
    funding: int,
)
    requires
        0 <= k < investments.len(),
        !investments[k].claimed,
    ensures
        paid_out(
            investments.update(k, Investment { claimed: true, ..investments[k] }),
            total_repayment,
            funding,
        ) == paid_out(investments, total_repayment, funding) + pro_rata(
            investments[k].amount as int,
            total_repayment,
            funding,
        ),
    decreases investments.len(),
{
    let stake = Investment { claimed: true, ..investments[k] };
    let updated = investments.update(k, stake);
    if k == investments.len() - 1 {
        assert(updated.drop_last() =~= investments.drop_last());
    } else {
        lemma_paid_out_claim(investments.drop_last(), k, total_repayment, funding);
        assert(updated.drop_last() =~= investments.drop_last().update(k, stake));
    }
}

/// At all times, what was paid out on a project is at most what was repaid
/// on its loan.
pub proof fn law_paid_out_within_repayment(ledger: Ledger)
    requires
        ledger.wf(),
        ledger.loan is Some,
    ensures
        0 <= paid_out(
            ledger.investments,
            ledger.loan->0.total_repayment as int,
            ledger.project.current_funding as int,
        ) <= ledger.loan->0.total_repayment,
{
    lemma_paid_out_within_payouts(
        ledger.investments,
        ledger.loan->0.total_repayment as int,
        ledger.project.current_funding as int,
    );
    law_payouts_within_repayment(ledger);
}

/// A claim that succeeds pays the stake's pro-rata share of what was
/// repaid, and what is paid out on the project grows by exactly that.
pub proof fn law_claim_pays_share(
    s: LendingState,
    caller: AccountId,
    now: Timestamp,
    project_id: u32,
    transferred: bool,
)
    requires
        s.wf(),
        s.claim_result(caller, now, project_id, transferred) is Ok,
    ensures
        ({
            let t = s.after_claim(caller, now, project_id, transferred);
            let paid = s.claim_result(caller, now, project_id, transferred)->Ok_0.amount;
            let owed = s.loan(project_id)->0.total_repayment as int;
            let funding = s.project(project_id)->0.current_funding as int;
            &&& s.project(project_id)->0.status == ProjectStatus::Repaid
            &&& now >= s.investment(project_id, caller)->0.lockup_end
            &&& s.claim_transfer(caller, now, project_id) == Ok::<Transfer, Error>(
                Transfer { to: caller, amount: paid },
            )
            &&& paid == pro_rata(
                s.investment(project_id, caller)->0.amount as int,
                owed,
                funding,
            )
            &&& paid_out(t.ledger(project_id).investments, owed, funding) == paid_out(
                s.ledger(project_id).investments,
                owed,
                funding,
            ) + paid
        }),
{
    let ledger = s.ledger(project_id);
    assert(ledger.wf());
    lemma_claim_fits(s, caller, now, project_id);
    let k = stake_position(ledger.investments, caller);
    lemma_paid_out_claim(
        ledger.investments,
        k,
        ledger.loan->0.total_repayment as int,
        ledger.project.current_funding as int,
    );
}

} // verus!
