//! The state of the platform as a mathematical value: for each project its
//! record, its investments in the order in which the investors first
//! deposited, and its loan; what each operation makes of that state; and
//! the invariant that every operation keeps.

use vstd::prelude::*;
use crate::math::{lemma_percentage_below, lemma_pro_rata_bounds, percentage, pro_rata};
use crate::rules::{
    claim_fits, deposit_fits, spec_new_project, spec_plan_claim, spec_plan_deposit,
    spec_plan_repay, spec_plan_withdraw, withdraw_fits, ClaimPlan, DepositPlan, RepayPlan,
    WithdrawPlan,
};
use crate::types::{
    AccountId, Balance, Claimed, Deposited, Error, Investment, Loan, Project, ProjectStatus,
    Repaid, Timestamp, Transfer, Withdrawn,
};

verus! {

/// The platform's fee on a deposit, in percent.
pub const PLATFORM_FEE: u8 = 2;

/// The sum of the amounts of `investments`.
pub open spec fn total_invested(investments: Seq<Investment>) -> int
    decreases investments.len(),
{
    if investments.len() == 0 {
        0
    } else {
        total_invested(investments.drop_last()) + investments.last().amount
    }
}

/// The sum of the payouts of `investments`, each its pro-rata share of
/// `total_repayment` out of `funding`, rounded down.
pub open spec fn total_payouts(
    investments: Seq<Investment>,
    total_repayment: int,
    funding: int,
) -> int
    decreases investments.len(),
{
    if investments.len() == 0 {
        0
    } else {
        total_payouts(investments.drop_last(), total_repayment, funding) + pro_rata(
            investments.last().amount as int,
            total_repayment,
            funding,
        )
    }
}

/// Whether `who` has a stake among `investments`.
pub open spec fn has_stake(investments: Seq<Investment>, who: AccountId) -> bool {
    exists|i: int| 0 <= i < investments.len() && (#[trigger] investments[i]).investor == who
}

/// Where the stake of `who` stands among `investments`.
pub open spec fn stake_position(investments: Seq<Investment>, who: AccountId) -> int {
    choose|i: int| 0 <= i < investments.len() && (#[trigger] investments[i]).investor == who
}

/// The stake of `who` among `investments`, if there is one.
pub open spec fn stake_of(investments: Seq<Investment>, who: AccountId) -> Option<Investment> {
    if has_stake(investments, who) {
        Some(investments[stake_position(investments, who)])
    } else {
        None
    }
}

/// The investments once `stake` is stored: it takes the place of the stake
/// its investor had, or comes last.
pub open spec fn with_stake(investments: Seq<Investment>, stake: Investment) -> Seq<Investment> {
    if has_stake(investments, stake.investor) {
        investments.update(stake_position(investments, stake.investor), stake)
    } else {
        investments.push(stake)
    }
}

/// No investor has two stakes.
pub open spec fn distinct_investors(investments: Seq<Investment>) -> bool {
    forall|i: int, j: int|
        0 <= i < j < investments.len() ==> (#[trigger] investments[i]).investor != (
        #[trigger] investments[j]).investor
}

/// All that the platform holds on one project.
pub struct Ledger {
    pub project: Project,
    /// One stake for each investor, in the order of their first deposits.
    pub investments: Seq<Investment>,
    pub loan: Option<Loan>,
}

impl Ledger {
    /// The ledger of a project that was just created.
    pub open spec fn opened(creator: AccountId, goal_amount: Balance, interest_rate: u8) -> Ledger {
        Ledger {
            project: spec_new_project(creator, goal_amount, interest_rate),
            investments: Seq::empty(),
            loan: None,
        }
    }

    /// The funding is exactly what the stakes add up to.
    pub open spec fn backed(self) -> bool {
        total_invested(self.investments) == self.project.current_funding
    }

    /// What holds of a project's ledger at all times.
    ///
    /// A loan exists exactly from the moment the project is borrowed; it is
    /// repaid exactly when the project is; it owes the funding and the
    /// interest on it. A project that is no longer active has reached its
    /// goal with a funding that is not zero, and an active one has not
    /// reached it unless nothing was deposited yet. No investor has two
    /// stakes, no stake is empty, the stakes add up to no more than the
    /// funding, and a stake is claimed only in a repaid project.
    pub open spec fn wf(self) -> bool {
        let p = self.project;
        &&& self.loan is Some <==> p.status == ProjectStatus::Borrowed || p.status
            == ProjectStatus::Repaid
        &&& self.loan is Some ==> {
            &&& self.loan->0.repaid <==> p.status == ProjectStatus::Repaid
            &&& self.loan->0.amount == p.current_funding
            &&& self.loan->0.interest_rate == p.interest_rate
            &&& self.loan->0.total_repayment == p.current_funding + percentage(
                p.current_funding as int,
                p.interest_rate as int,
            )
        }
        &&& p.status != ProjectStatus::Active ==> p.current_funding >= p.goal_amount
            && p.current_funding > 0
        &&& p.status == ProjectStatus::Active ==> p.current_funding == 0 || p.current_funding
            < p.goal_amount
        &&& distinct_investors(self.investments)
        &&& forall|i: int|
            0 <= i < self.investments.len() ==> {
                &&& (#[trigger] self.investments[i]).amount > 0
                &&& self.investments[i].claimed ==> p.status == ProjectStatus::Repaid
            }
        &&& total_invested(self.investments) <= p.current_funding
    }
}

/// Storing a stake at the end adds its amount to the sum.
pub proof fn lemma_total_invested_push(investments: Seq<Investment>, stake: Investment)
    ensures
        total_invested(investments.push(stake)) == total_invested(investments) + stake.amount,
{
    assert(investments.push(stake).drop_last() =~= investments);
}

/// Storing a stake in place of another changes the sum by their difference.
pub proof fn lemma_total_invested_update(investments: Seq<Investment>, i: int, stake: Investment)
    requires
        0 <= i < investments.len(),
    ensures
        total_invested(investments.update(i, stake)) == total_invested(investments)
            - investments[i].amount + stake.amount,
    decreases investments.len(),
{
    let updated = investments.update(i, stake);
    if i == investments.len() - 1 {
        assert(updated.drop_last() =~= investments.drop_last());
    } else {
        lemma_total_invested_update(investments.drop_last(), i, stake);
        assert(updated.drop_last() =~= investments.drop_last().update(i, stake));
    }
}

/// A sum of stakes is never negative.
pub proof fn lemma_total_invested_nonnegative(investments: Seq<Investment>)
    ensures
        0 <= total_invested(investments),
    decreases investments.len(),
{
    if investments.len() > 0 {
        lemma_total_invested_nonnegative(investments.drop_last());
    }
}

/// No stake is more than the sum of all of them.
pub proof fn lemma_total_invested_covers(investments: Seq<Investment>, i: int)
    requires
        0 <= i < investments.len(),
    ensures
        investments[i].amount <= total_invested(investments),
    decreases investments.len(),
{
    lemma_total_invested_nonnegative(investments.drop_last());
    if i < investments.len() - 1 {
        lemma_total_invested_covers(investments.drop_last(), i);
        assert(investments.drop_last()[i] == investments[i]);
    }
}

/// Where no investor has two stakes, an investor's stake is the one that
/// names the investor.
pub proof fn lemma_stake_position(investments: Seq<Investment>, who: AccountId, i: int)
    requires
        distinct_investors(investments),
        0 <= i < investments.len(),
        investments[i].investor == who,
    ensures
        has_stake(investments, who),
        stake_position(investments, who) == i,
        stake_of(investments, who) == Some(investments[i]),
{
    let j = stake_position(investments, who);
    assert(investments[j].investor == who);
    if i < j {
        assert(investments[i].investor != investments[j].investor);
    } else if j < i {
        assert(investments[j].investor != investments[i].investor);
    }
}

/// Storing a stake keeps the investors distinct and every stake but that
/// investor's as it was, and changes the sum by the stake's amount less
/// that of the stake it replaces.
pub proof fn lemma_with_stake(investments: Seq<Investment>, stake: Investment)
    requires
        distinct_investors(investments),
    ensures
        distinct_investors(with_stake(investments, stake)),
        stake_of(with_stake(investments, stake), stake.investor) == Some(stake),
        forall|who: AccountId|
            who != stake.investor ==> stake_of(with_stake(investments, stake), who) == stake_of(
                investments,
                who,
            ),
        total_invested(with_stake(investments, stake)) == total_invested(investments) + stake.amount
            - (if has_stake(investments, stake.investor) {
                stake_of(investments, stake.investor)->0.amount as int
            } else {
                0
            }),
        forall|i: int|
            0 <= i < with_stake(investments, stake).len() ==> (#[trigger] with_stake(
                investments,
                stake,
            )[i]) == stake || (0 <= i < investments.len() && with_stake(investments, stake)[i]
                == investments[i]),
{
    let after = with_stake(investments, stake);
    let k = if has_stake(investments, stake.investor) {
        stake_position(investments, stake.investor)
    } else {
        investments.len() as int
    };
    if has_stake(investments, stake.investor) {
        assert(investments[k].investor == stake.investor);
        lemma_total_invested_update(investments, k, stake);
    } else {
        lemma_total_invested_push(investments, stake);
    }
    assert forall|i: int, j: int| 0 <= i < j < after.len() implies (#[trigger] after[i]).investor
        != (#[trigger] after[j]).investor by {
        if i < investments.len() {
            assert(after[i].investor == investments[i].investor);
        }
        if j < investments.len() {
            assert(after[j].investor == investments[j].investor);
        }
    }
    lemma_stake_position(after, stake.investor, k);
    assert forall|who: AccountId| who != stake.investor implies stake_of(after, who) == stake_of(
        investments,
        who,
    ) by {
        if has_stake(investments, who) {
            let m = stake_position(investments, who);
            assert(investments[m].investor == who);
            assert(after[m] == investments[m]);
            lemma_stake_position(after, who, m);
        } else if has_stake(after, who) {
            let m = stake_position(after, who);
            assert(after[m].investor == who);
            assert(investments[m].investor == who);
        }
    }
}

/// The whole state: the configuration, the counter of project ids, and the
/// ledger of each project, that of project `k` at place `k - 1`.
pub struct LendingState {
    pub platform_wallet: AccountId,
    pub platform_fee: u8,
    pub next_project_id: u32,
    pub ledgers: Seq<Ledger>,
}

impl LendingState {
    /// The state of a platform that was just set up.
    pub open spec fn initial(platform_wallet: AccountId) -> LendingState {
        LendingState {
            platform_wallet,
            platform_fee: PLATFORM_FEE,
            next_project_id: 1,
            ledgers: Seq::empty(),
        }
    }

    /// What holds of the state at all times: the fee leaves something of
    /// every deposit, the ids given out so far are those below the counter,
    /// and every ledger is well formed.
    pub open spec fn wf(self) -> bool {
        &&& self.platform_fee < 100
        &&& self.next_project_id == self.ledgers.len() + 1
        &&& forall|i: int| 0 <= i < self.ledgers.len() ==> (#[trigger] self.ledgers[i]).wf()
    }

    /// Whether a project was created under `project_id`.
    pub open spec fn has_project(self, project_id: u32) -> bool {
        1 <= project_id <= self.ledgers.len()
    }

    /// The ledger of an existing project.
    pub open spec fn ledger(self, project_id: u32) -> Ledger {
        self.ledgers[project_id - 1]
    }

    /// The record of a project, if it exists.
    pub open spec fn project(self, project_id: u32) -> Option<Project> {
        if self.has_project(project_id) {
            Some(self.ledger(project_id).project)
        } else {
            None
        }
    }

    /// The stake of `investor` in a project, if there is one.
    pub open spec fn investment(self, project_id: u32, investor: AccountId) -> Option<Investment> {
        if self.has_project(project_id) {
            stake_of(self.ledger(project_id).investments, investor)
        } else {
            None
        }
    }

    /// The loan made on a project, if there is one.
    pub open spec fn loan(self, project_id: u32) -> Option<Loan> {
        if self.has_project(project_id) {
            self.ledger(project_id).loan
        } else {
            None
        }
    }

    /// The state with `ledger` in place of that of an existing project.
    pub open spec fn with_ledger(self, project_id: u32, ledger: Ledger) -> LendingState {
        LendingState { ledgers: self.ledgers.update(project_id - 1, ledger), ..self }
    }

    /// The state after `caller` created a project: it has the id that the
    /// counter showed, and the counter moved on.
    pub open spec fn after_create_project(
        self,
        caller: AccountId,
        goal_amount: Balance,
        interest_rate: u8,
    ) -> LendingState {
        LendingState {
            next_project_id: (self.next_project_id + 1) as u32,
            ledgers: self.ledgers.push(Ledger::opened(caller, goal_amount, interest_rate)),
            ..self
        }
    }

    /// The decision on a deposit, on what the state holds for the project.
    pub open spec fn plan_deposit(
        self,
        caller: AccountId,
        now: Timestamp,
        amount: Balance,
        project_id: u32,
        lockup_period: Timestamp,
    ) -> Result<DepositPlan, Error> {
        spec_plan_deposit(
            self.project(project_id),
            self.platform_fee,
            caller,
            amount,
            now,
            lockup_period,
        )
    }

    /// Whether the numbers of a deposit stay within their types.
    pub open spec fn deposit_fits(
        self,
        now: Timestamp,
        amount: Balance,
        project_id: u32,
        lockup_period: Timestamp,
    ) -> bool {
        deposit_fits(self.project(project_id), self.platform_fee, amount, now, lockup_period)
    }

    /// The transfer that has to succeed before a deposit is stored: the fee
    /// to the platform wallet, unless it is zero.
    pub open spec fn deposit_transfer(
        self,
        caller: AccountId,
        now: Timestamp,
        amount: Balance,
        project_id: u32,
        lockup_period: Timestamp,
    ) -> Result<Option<Transfer>, Error> {
        match self.plan_deposit(caller, now, amount, project_id, lockup_period) {
            Ok(plan) => Ok(
                if plan.fee > 0 {
                    Some(Transfer { to: self.platform_wallet, amount: plan.fee })
                } else {
                    None
                },
            ),
            Err(e) => Err(e),
        }
    }

    /// What a deposit returns: the refusal of the rules; failing that, the
    /// failure of the transfer if one was needed and `transferred` is
    /// false; failing that, the event.
    pub open spec fn deposit_result(
        self,
        caller: AccountId,
        now: Timestamp,
        amount: Balance,
        project_id: u32,
        lockup_period: Timestamp,
        transferred: bool,
    ) -> Result<Deposited, Error> {
        match self.plan_deposit(caller, now, amount, project_id, lockup_period) {
            Ok(plan) => if plan.fee > 0 && !transferred {
                Err(Error::TransferFailed)
            } else {
                Ok(
                    Deposited {
                        project_id,
                        investor: caller,
                        amount,
                        net_amount: plan.investment.amount,
                    },
                )
            },
            Err(e) => Err(e),
        }
    }

    /// The state after a deposit: where it succeeds, the project and the
    /// caller's stake are as the rules say; where it fails, nothing changed.
    pub open spec fn after_deposit(
        self,
        caller: AccountId,
        now: Timestamp,
        amount: Balance,
        project_id: u32,
        lockup_period: Timestamp,
        transferred: bool,
    ) -> LendingState {
        if self.deposit_result(caller, now, amount, project_id, lockup_period, transferred) is Ok {
            let plan = self.plan_deposit(caller, now, amount, project_id, lockup_period)->Ok_0;
            let ledger = self.ledger(project_id);
            self.with_ledger(
                project_id,
                Ledger {
                    project: plan.project,
                    investments: with_stake(ledger.investments, plan.investment),
                    loan: ledger.loan,
                },
            )
        } else {
            self
        }
    }

    /// The decision on a withdrawal, on what the state holds for the project.
    pub open spec fn plan_withdraw(
        self,
        caller: AccountId,
        now: Timestamp,
        project_id: u32,
    ) -> Result<WithdrawPlan, Error> {
        spec_plan_withdraw(self.project(project_id), caller, now)
    }

    /// Whether the numbers of a withdrawal stay within their types.
    pub open spec fn withdraw_fits(
        self,
        caller: AccountId,
        now: Timestamp,
        project_id: u32,
    ) -> bool {
        withdraw_fits(self.project(project_id), caller, now)
    }

    /// The transfer that has to succeed before a withdrawal is stored: the
    /// funding to the creator.
    pub open spec fn withdraw_transfer(
        self,
        caller: AccountId,
        now: Timestamp,
        project_id: u32,
    ) -> Result<Transfer, Error> {
        match self.plan_withdraw(caller, now, project_id) {
            Ok(plan) => Ok(Transfer { to: caller, amount: plan.amount }),
            Err(e) => Err(e),
        }
    }

    /// What a withdrawal returns: the refusal of the rules; failing that,
    /// the failure of the transfer if `transferred` is false; failing that,
    /// the event.
    pub open spec fn withdraw_result(
        self,
        caller: AccountId,
        now: Timestamp,
        project_id: u32,
        transferred: bool,
    ) -> Result<Withdrawn, Error> {
        match self.plan_withdraw(caller, now, project_id) {
            Ok(plan) => if !transferred {
                Err(Error::TransferFailed)
            } else {
                Ok(Withdrawn { project_id, creator: caller, amount: plan.amount })
            },
            Err(e) => Err(e),
        }
    }

    /// The state after a withdrawal: where it succeeds, the project is
    /// borrowed and has its loan; where it fails, nothing changed.
    pub open spec fn after_withdraw(
        self,
        caller: AccountId,
        now: Timestamp,
        project_id: u32,
        transferred: bool,
    ) -> LendingState {
        if self.withdraw_result(caller, now, project_id, transferred) is Ok {
            let plan = self.plan_withdraw(caller, now, project_id)->Ok_0;
            self.with_ledger(
                project_id,
                Ledger {
                    project: plan.project,
                    investments: self.ledger(project_id).investments,
                    loan: Some(plan.loan),
                },
            )
        } else {
            self
        }
    }

    /// The decision on a repayment, on what the state holds for the project.
    pub open spec fn plan_repay(
        self,
        caller: AccountId,
        amount: Balance,
        project_id: u32,
    ) -> Result<RepayPlan, Error> {
        spec_plan_repay(self.project(project_id), self.loan(project_id), caller, amount)
    }

    /// What a repayment returns: the refusal of the rules, or the event.
    pub open spec fn repay_result(
        self,
        caller: AccountId,
        amount: Balance,
        project_id: u32,
    ) -> Result<Repaid, Error> {
        match self.plan_repay(caller, amount, project_id) {
            Ok(plan) => Ok(Repaid { project_id, amount }),
            Err(e) => Err(e),
        }
    }

    /// The state after a repayment: where it succeeds, the loan and the
    /// project are repaid; where it fails, nothing changed.
    pub open spec fn after_repay(
        self,
        caller: AccountId,
        amount: Balance,
        project_id: u32,
    ) -> LendingState {
        match self.plan_repay(caller, amount, project_id) {
            Ok(plan) => self.with_ledger(
                project_id,
                Ledger {
                    project: plan.project,
                    investments: self.ledger(project_id).investments,
                    loan: Some(plan.loan),
                },
            ),
            Err(e) => self,
        }
    }

    /// The decision on a claim, on what the state holds for the project and
    /// the caller.
    pub open spec fn plan_claim(
        self,
        caller: AccountId,
        now: Timestamp,
        project_id: u32,
    ) -> Result<ClaimPlan, Error> {
        spec_plan_claim(
            self.investment(project_id, caller),
            self.loan(project_id),
            self.project(project_id),
            now,
        )
    }

    /// The transfer that has to succeed before a claim is stored: the
    /// payout to the investor.
    pub open spec fn claim_transfer(
        self,
        caller: AccountId,
        now: Timestamp,
        project_id: u32,
    ) -> Result<Transfer, Error> {
        match self.plan_claim(caller, now, project_id) {
            Ok(plan) => Ok(Transfer { to: caller, amount: plan.share }),
            Err(e) => Err(e),
        }
    }

    /// What a claim returns: the refusal of the rules; failing that, the
    /// failure of the transfer if `transferred` is false; failing that, the
    /// event.
    pub open spec fn claim_result(
        self,
        caller: AccountId,
        now: Timestamp,
        project_id: u32,
        transferred: bool,
    ) -> Result<Claimed, Error> {
        match self.plan_claim(caller, now, project_id) {
            Ok(plan) => if !transferred {
                Err(Error::TransferFailed)
            } else {
                Ok(Claimed { project_id, investor: caller, amount: plan.share })
            },
            Err(e) => Err(e),
        }
    }

    /// The state after a claim: where it succeeds, the caller's stake is
    /// marked as claimed; where it fails, nothing changed.
    pub open spec fn after_claim(
        self,
        caller: AccountId,
        now: Timestamp,
        project_id: u32,
        transferred: bool,
    ) -> LendingState {
        if self.claim_result(caller, now, project_id, transferred) is Ok {
            let plan = self.plan_claim(caller, now, project_id)->Ok_0;
            let ledger = self.ledger(project_id);
            self.with_ledger(
                project_id,
                Ledger {
                    project: ledger.project,
                    investments: with_stake(ledger.investments, plan.investment),
                    loan: ledger.loan,
                },
            )
        } else {
            self
        }
    }
}

/// A platform that was just set up is well formed.
pub proof fn lemma_initial_wf(platform_wallet: AccountId)
    ensures
        LendingState::initial(platform_wallet).wf(),
{
}

/// Creating a project keeps the state well formed, as long as an id is left.
pub proof fn lemma_create_project_wf(
    s: LendingState,
    caller: AccountId,
    goal_amount: Balance,
    interest_rate: u8,
)
    requires
        s.wf(),
        s.next_project_id < u32::MAX,
    ensures
        s.after_create_project(caller, goal_amount, interest_rate).wf(),
{
    let t = s.after_create_project(caller, goal_amount, interest_rate);
    let fresh = Ledger::opened(caller, goal_amount, interest_rate);
    assert(fresh.wf());
    assert forall|i: int| 0 <= i < t.ledgers.len() implies (#[trigger] t.ledgers[i]).wf() by {
        if i < s.ledgers.len() {
            assert(t.ledgers[i] == s.ledgers[i]);
        }
    }
}

/// A deposit keeps the state well formed.
pub proof fn lemma_after_deposit_wf(
    s: LendingState,
    caller: AccountId,
    now: Timestamp,
    amount: Balance,
    project_id: u32,
    lockup_period: Timestamp,
    transferred: bool,
)
    requires
        s.wf(),
        s.deposit_fits(now, amount, project_id, lockup_period),
    ensures
        s.after_deposit(caller, now, amount, project_id, lockup_period, transferred).wf(),
{
    let t = s.after_deposit(caller, now, amount, project_id, lockup_period, transferred);
    if s.deposit_result(caller, now, amount, project_id, lockup_period, transferred) is Ok {
        let plan = s.plan_deposit(caller, now, amount, project_id, lockup_period)->Ok_0;
        let before = s.ledger(project_id);
        let after = t.ledger(project_id);
        assert(before.wf());
        lemma_percentage_below(amount as int, s.platform_fee as int);
        lemma_with_stake(before.investments, plan.investment);
        lemma_total_invested_nonnegative(before.investments);
        if has_stake(before.investments, caller) {
            let k = stake_position(before.investments, caller);
            assert(before.investments[k].investor == caller);
        }
        assert(after.wf());
        assert forall|i: int| 0 <= i < t.ledgers.len() implies (#[trigger] t.ledgers[i]).wf() by {
            if i != project_id - 1 {
                assert(t.ledgers[i] == s.ledgers[i]);
            }
        }
    }
}

/// A withdrawal keeps the state well formed.
pub proof fn lemma_after_withdraw_wf(
    s: LendingState,
    caller: AccountId,
    now: Timestamp,
    project_id: u32,
    transferred: bool,
)
    requires
        s.wf(),
        s.withdraw_fits(caller, now, project_id),
    ensures
        s.after_withdraw(caller, now, project_id, transferred).wf(),
{
    let t = s.after_withdraw(caller, now, project_id, transferred);
    if s.withdraw_result(caller, now, project_id, transferred) is Ok {
        let before = s.ledger(project_id);
        assert(before.wf());
        assert(t.ledger(project_id).wf());
        assert forall|i: int| 0 <= i < t.ledgers.len() implies (#[trigger] t.ledgers[i]).wf() by {
            if i != project_id - 1 {
                assert(t.ledgers[i] == s.ledgers[i]);
            }
        }
    }
}

/// A repayment keeps the state well formed.
pub proof fn lemma_after_repay_wf(
    s: LendingState,
    caller: AccountId,
    amount: Balance,
    project_id: u32,
)
    requires
        s.wf(),
    ensures
        s.after_repay(caller, amount, project_id).wf(),
{
    let t = s.after_repay(caller, amount, project_id);
    if s.plan_repay(caller, amount, project_id) is Ok {
        let before = s.ledger(project_id);
        assert(before.wf());
        assert(t.ledger(project_id).wf());
        assert forall|i: int| 0 <= i < t.ledgers.len() implies (#[trigger] t.ledgers[i]).wf() by {
            if i != project_id - 1 {
                assert(t.ledgers[i] == s.ledgers[i]);
            }
        }
    }
}

/// In a well-formed state the payout of a claim can always be computed: the
/// stake is part of a funding that is not zero, so the payout is at most
/// what was repaid.
pub proof fn lemma_claim_fits(s: LendingState, caller: AccountId, now: Timestamp, project_id: u32)
    requires
        s.wf(),
    ensures
        claim_fits(
            s.investment(project_id, caller),
            s.loan(project_id),
            s.project(project_id),
            now,
        ),
        s.plan_claim(caller, now, project_id) is Ok ==> s.plan_claim(
            caller,
            now,
            project_id,
        )->Ok_0.share == pro_rata(
            s.investment(project_id, caller)->0.amount as int,
            s.loan(project_id)->0.total_repayment as int,
            s.project(project_id)->0.current_funding as int,
        ),
{
    if s.has_project(project_id) && has_stake(s.ledger(project_id).investments, caller)
        && s.loan(project_id) is Some {
        let ledger = s.ledger(project_id);
        assert(ledger.wf());
        let k = stake_position(ledger.investments, caller);
        lemma_total_invested_covers(ledger.investments, k);
        lemma_pro_rata_bounds(
            ledger.investments[k].amount as int,
            ledger.loan->0.total_repayment as int,
            ledger.project.current_funding as int,
        );
    }
}

/// A claim keeps the state well formed.
pub proof fn lemma_after_claim_wf(
    s: LendingState,
    caller: AccountId,
    now: Timestamp,
    project_id: u32,
    transferred: bool,
)
    requires
        s.wf(),
    ensures
        s.after_claim(caller, now, project_id, transferred).wf(),
{
    let t = s.after_claim(caller, now, project_id, transferred);
    if s.claim_result(caller, now, project_id, transferred) is Ok {
        let plan = s.plan_claim(caller, now, project_id)->Ok_0;
        let before = s.ledger(project_id);
        let after = t.ledger(project_id);
        assert(before.wf());
        let k = stake_position(before.investments, caller);
        assert(before.investments[k].investor == caller);
        lemma_with_stake(before.investments, plan.investment);
        assert(after.wf());
        assert forall|i: int| 0 <= i < t.ledgers.len() implies (#[trigger] t.ledgers[i]).wf() by {
            if i != project_id - 1 {
                assert(t.ledgers[i] == s.ledgers[i]);
            }
        }
    }
}

} // verus!
