//! The engine: the ledgers of all projects and the operations on them.
//!
//! The engine moves no value and reads no clock. The host hands in who
//! calls, the time, and what was sent along; where an operation needs a
//! transfer, the host asks which one (`deposit_transfer`,
//! `withdraw_transfer`, `claim_transfer`), carries it out, and then runs
//! the operation itself, telling it whether the transfer went through. An
//! operation that fails leaves the ledgers as they were.

use vstd::prelude::*;
use crate::model::{
    distinct_investors, has_stake, lemma_after_claim_wf, lemma_after_deposit_wf,
    lemma_after_repay_wf, lemma_after_withdraw_wf, lemma_claim_fits, lemma_create_project_wf,
    lemma_stake_position, stake_position, Ledger, LendingState, PLATFORM_FEE,
};
use crate::rules::{
    can_plan_deposit, can_plan_withdraw, new_project, plan_claim, plan_deposit, plan_repay,
    plan_withdraw,
};
use crate::types::{
    AccountId, Balance, Claimed, Deposited, Error, Investment, Loan, Project, Repaid, Timestamp,
    Transfer, Withdrawn,
};

verus! {

/// What the engine keeps on one project.
struct Book {
    project: Project,
    investments: Vec<Investment>,
    loan: Option<Loan>,
}

impl View for Book {
    type V = Ledger;

    closed spec fn view(&self) -> Ledger {
        Ledger { project: self.project, investments: self.investments@, loan: self.loan }
    }
}

/// The ledgers of a lending platform.
pub struct BochicaLending {
    platform_wallet: AccountId,
    platform_fee: u8,
    books: Vec<Book>,
    next_project_id: u32,
}

impl View for BochicaLending {
    type V = LendingState;

    closed spec fn view(&self) -> LendingState {
        LendingState {
            platform_wallet: self.platform_wallet,
            platform_fee: self.platform_fee,
            next_project_id: self.next_project_id,
            ledgers: Seq::new(self.books@.len(), |i: int| self.books@[i]@),
        }
    }
}

/// The place of the stake of `who` among `investments`.
fn find_stake(investments: &Vec<Investment>, who: AccountId) -> (r: Option<usize>)
    requires
        distinct_investors(investments@),
    ensures
        r is Some <==> has_stake(investments@, who),
        r is Some ==> r->0 < investments@.len() && r->0 == stake_position(investments@, who),
{
    let mut i: usize = 0;
    while i < investments.len()
        invariant
            distinct_investors(investments@),
            i <= investments@.len(),
            forall|k: int| 0 <= k < i ==> (#[trigger] investments@[k]).investor != who,
        decreases investments@.len() - i,
    {
        if investments[i].investor == who {
            proof {
                lemma_stake_position(investments@, who, i as int);
            }
            return Some(i);
        }
        i += 1;
    }
    None
}

impl BochicaLending {
    /// Whether the ledgers are well formed: see [`LendingState::wf`].
    pub open spec fn wf(&self) -> bool {
        self@.wf()
    }

    /// Where the book of a project stands, if the project exists.
    fn book_index(&self, project_id: u32) -> (r: Option<usize>)
        ensures
            r is Some <==> self@.has_project(project_id),
            r is Some ==> r->0 == project_id - 1 && r->0 < self.books@.len(),
            r is Some ==> self.books@[r->0 as int]@ == self@.ledger(project_id),
    {
        if project_id == 0 || project_id as usize > self.books.len() {
            None
        } else {
            Some((project_id - 1) as usize)
        }
    }

    /// Sets up a platform whose fees go to `platform_wallet`, with no
    /// project yet.
    pub fn new(platform_wallet: AccountId) -> (r: Self)
        ensures
            r.wf(),
            r@ == LendingState::initial(platform_wallet),
    {
        let r = BochicaLending {
            platform_wallet,
            platform_fee: PLATFORM_FEE,
            books: Vec::new(),
            next_project_id: 1,
        };
        proof {
            assert(r@.ledgers =~= Seq::empty());
        }
        r
    }

    /// Whether a project can still be created: whether an id is left.
    pub fn can_create_project(&self) -> (r: bool)
        ensures
            r == (self@.next_project_id < u32::MAX),
    {
        self.next_project_id < u32::MAX
    }

    /// Creates a project owned by `caller` and returns its id. Ids start at
    /// one and go up by one; none is given out twice.
    pub fn create_project(
        &mut self,
        caller: AccountId,
        goal_amount: Balance,
        interest_rate: u8,
    ) -> (id: u32)
        requires
            old(self).wf(),
            old(self)@.next_project_id < u32::MAX,
        ensures
            final(self).wf(),
            id == old(self)@.next_project_id,
            final(self)@ == old(self)@.after_create_project(caller, goal_amount, interest_rate),
    {
        let id = self.next_project_id;
        self.books.push(
            Book {
                project: new_project(caller, goal_amount, interest_rate),
                investments: Vec::new(),
                loan: None,
            },
        );
        self.next_project_id = id + 1;
        proof {
            lemma_create_project_wf(old(self)@, caller, goal_amount, interest_rate);
            assert(self@.ledgers =~= old(self)@.after_create_project(
                caller,
                goal_amount,
                interest_rate,
            ).ledgers);
        }
        id
    }

    /// Whether the numbers of a deposit stay within their types, as
    /// `deposit_transfer` and `deposit` ask.
    pub fn can_deposit(
        &self,
        now: Timestamp,
        amount: Balance,
        project_id: u32,
        lockup_period: Timestamp,
    ) -> (r: bool)
        ensures
            r == self@.deposit_fits(now, amount, project_id, lockup_period),
    {
        can_plan_deposit(self.get_project(project_id), self.platform_fee, amount, now, lockup_period)
    }

    /// The transfer that a deposit needs before it is stored, or why the
    /// deposit is refused.
    pub fn deposit_transfer(
        &self,
        caller: AccountId,
        now: Timestamp,
        amount: Balance,
        project_id: u32,
        lockup_period: Timestamp,
    ) -> (r: Result<Option<Transfer>, Error>)
        requires
            self.wf(),
            self@.deposit_fits(now, amount, project_id, lockup_period),
        ensures
            r == self@.deposit_transfer(caller, now, amount, project_id, lockup_period),
    {
        match plan_deposit(
            self.get_project(project_id),
            self.platform_fee,
            caller,
            amount,
            now,
            lockup_period,
        ) {
            Ok(plan) => {
                if plan.fee > 0 {
                    Ok(Some(Transfer { to: self.platform_wallet, amount: plan.fee }))
                } else {
                    Ok(None)
                }
            },
            Err(e) => Err(e),
        }
    }

    /// Takes a deposit of `amount` from `caller` into a project.
    /// `transferred` says whether the transfer that `deposit_transfer`
    /// asked for went through; it is not looked at where none was needed.
    pub fn deposit(
        &mut self,
        caller: AccountId,
        now: Timestamp,
        amount: Balance,
        project_id: u32,
        lockup_period: Timestamp,
        transferred: bool,
    ) -> (r: Result<Deposited, Error>)
        requires
            old(self).wf(),
            old(self)@.deposit_fits(now, amount, project_id, lockup_period),
        ensures
            final(self).wf(),
            r == old(self)@.deposit_result(
                caller,
                now,
                amount,
                project_id,
                lockup_period,
                transferred,
            ),
            final(self)@ == old(self)@.after_deposit(
                caller,
                now,
                amount,
                project_id,
                lockup_period,
                transferred,
            ),
    {
        let plan = match plan_deposit(
            self.get_project(project_id),
            self.platform_fee,
            caller,
            amount,
            now,
            lockup_period,
        ) {
            Ok(plan) => plan,
            Err(e) => {
                return Err(e);
            },
        };
        if plan.fee > 0 && !transferred {
            return Err(Error::TransferFailed);
        }
        let idx = (project_id - 1) as usize;
        proof {
            assert(self.books@[idx as int]@.wf());
        }
        let at = find_stake(&self.books[idx].investments, caller);
        let book = &mut self.books[idx];
        book.project = plan.project;
        match at {
            Some(i) => {
                book.investments[i] = plan.investment;
            },
            None => {
                book.investments.push(plan.investment);
            },
        }
        proof {
            lemma_after_deposit_wf(
                old(self)@,
                caller,
                now,
                amount,
                project_id,
                lockup_period,
                transferred,
            );
            assert(self@.ledgers =~= old(self)@.after_deposit(
                caller,
                now,
                amount,
                project_id,
                lockup_period,
                transferred,
            ).ledgers);
        }
        Ok(Deposited { project_id, investor: caller, amount, net_amount: plan.investment.amount })
    }

    /// Whether the numbers of a withdrawal stay within their types, as
    /// `withdraw_transfer` and `withdraw` ask.
    pub fn can_withdraw(&self, caller: AccountId, now: Timestamp, project_id: u32) -> (r: bool)
        ensures
            r == self@.withdraw_fits(caller, now, project_id),
    {
        can_plan_withdraw(self.get_project(project_id), caller, now)
    }

    /// The transfer that a withdrawal needs before it is stored, or why the
    /// withdrawal is refused.
    pub fn withdraw_transfer(
        &self,
        caller: AccountId,
        now: Timestamp,
        project_id: u32,
    ) -> (r: Result<Transfer, Error>)
        requires
            self.wf(),
            self@.withdraw_fits(caller, now, project_id),
        ensures
            r == self@.withdraw_transfer(caller, now, project_id),
    {
        match plan_withdraw(self.get_project(project_id), caller, now) {
            Ok(plan) => Ok(Transfer { to: caller, amount: plan.amount }),
            Err(e) => Err(e),
        }
    }

    /// Lends a funded project's funding to its creator. `transferred` says
    /// whether the transfer that `withdraw_transfer` asked for went through.
    pub fn withdraw(
        &mut self,
        caller: AccountId,
        now: Timestamp,
        project_id: u32,
        transferred: bool,
    ) -> (r: Result<Withdrawn, Error>)
        requires
            old(self).wf(),
            old(self)@.withdraw_fits(caller, now, project_id),
        ensures
            final(self).wf(),
            r == old(self)@.withdraw_result(caller, now, project_id, transferred),
            final(self)@ == old(self)@.after_withdraw(caller, now, project_id, transferred),
    {
        let plan = match plan_withdraw(self.get_project(project_id), caller, now) {
            Ok(plan) => plan,
            Err(e) => {
                return Err(e);
            },
        };
        if !transferred {
            return Err(Error::TransferFailed);
        }
        let idx = (project_id - 1) as usize;
        let book = &mut self.books[idx];
        book.project = plan.project;
        book.loan = Some(plan.loan);
        proof {
            lemma_after_withdraw_wf(old(self)@, caller, now, project_id, transferred);
            assert(self@.ledgers =~= old(self)@.after_withdraw(
                caller,
                now,
                project_id,
                transferred,
            ).ledgers);
        }
        Ok(Withdrawn { project_id, creator: caller, amount: plan.amount })
    }

    /// Takes the repayment of a project's loan from its creator, who sent
    /// `amount` along.
    pub fn repay(
        &mut self,
        caller: AccountId,
        amount: Balance,
        project_id: u32,
    ) -> (r: Result<Repaid, Error>)
        requires
            old(self).wf(),
        ensures
            final(self).wf(),
            r == old(self)@.repay_result(caller, amount, project_id),
            final(self)@ == old(self)@.after_repay(caller, amount, project_id),
    {
        let plan = match plan_repay(
            self.get_project(project_id),
            self.get_loan(project_id),
            caller,
            amount,
        ) {
            Ok(plan) => plan,
            Err(e) => {
                return Err(e);
            },
        };
        let idx = (project_id - 1) as usize;
        let book = &mut self.books[idx];
        book.project = plan.project;
        book.loan = Some(plan.loan);
        proof {
            lemma_after_repay_wf(old(self)@, caller, amount, project_id);
            assert(self@.ledgers =~= old(self)@.after_repay(caller, amount, project_id).ledgers);
        }
        Ok(Repaid { project_id, amount })
    }

    /// The transfer that a claim needs before it is stored, or why the
    /// claim is refused.
    pub fn claim_transfer(
        &self,
        caller: AccountId,
        now: Timestamp,
        project_id: u32,
    ) -> (r: Result<Transfer, Error>)
        requires
            self.wf(),
        ensures
            r == self@.claim_transfer(caller, now, project_id),
    {
        proof {
            lemma_claim_fits(self@, caller, now, project_id);
        }
        match plan_claim(
            self.get_investment(project_id, caller),
            self.get_loan(project_id),
            self.get_project(project_id),
            now,
        ) {
            Ok(plan) => Ok(Transfer { to: caller, amount: plan.share }),
            Err(e) => Err(e),
        }
    }

    /// Pays out the stake of `caller` in a repaid project. `transferred`
    /// says whether the transfer that `claim_transfer` asked for went
    /// through.
    pub fn claim(
        &mut self,
        caller: AccountId,
        now: Timestamp,
        project_id: u32,
        transferred: bool,
    ) -> (r: Result<Claimed, Error>)
        requires
            old(self).wf(),
        ensures
            final(self).wf(),
            r == old(self)@.claim_result(caller, now, project_id, transferred),
            final(self)@ == old(self)@.after_claim(caller, now, project_id, transferred),
    {
        proof {
            lemma_claim_fits(self@, caller, now, project_id);
        }
        let plan = match plan_claim(
            self.get_investment(project_id, caller),
            self.get_loan(project_id),
            self.get_project(project_id),
            now,
        ) {
            Ok(plan) => plan,
            Err(e) => {
                return Err(e);
            },
        };
        if !transferred {
            return Err(Error::TransferFailed);
        }
        let idx = (project_id - 1) as usize;
        proof {
            assert(self.books@[idx as int]@.wf());
        }
        let at = find_stake(&self.books[idx].investments, caller);
        match at {
            Some(i) => {
                self.books[idx].investments[i] = plan.investment;
            },
            None => {},
        }
        proof {
            lemma_after_claim_wf(old(self)@, caller, now, project_id, transferred);
            assert(self@.ledgers =~= old(self)@.after_claim(
                caller,
                now,
                project_id,
                transferred,
            ).ledgers);
        }
        Ok(Claimed { project_id, investor: caller, amount: plan.share })
    }

    /// The wallet that the platform's fees go to.
    pub fn get_platform_wallet(&self) -> (r: AccountId)
        ensures
            r == self@.platform_wallet,
    {
        self.platform_wallet
    }

    /// The record of a project as it was last stored, if the project exists.
    pub fn get_project(&self, project_id: u32) -> (r: Option<Project>)
        ensures
            r == self@.project(project_id),
    {
        match self.book_index(project_id) {
            Some(idx) => Some(self.books[idx].project),
            None => None,
        }
    }

    /// The stake of `investor` in a project as it was last stored, if there
    /// is one.
    pub fn get_investment(&self, project_id: u32, investor: AccountId) -> (r: Option<Investment>)
        requires
            self.wf(),
        ensures
            r == self@.investment(project_id, investor),
    {
        match self.book_index(project_id) {
            Some(idx) => {
                proof {
                    assert(self@.ledgers[idx as int].wf());
                }
                match find_stake(&self.books[idx].investments, investor) {
                    Some(i) => Some(self.books[idx].investments[i]),
                    None => None,
                }
            },
            None => None,
        }
    }

    /// The loan made on a project as it was last stored, if there is one.
    pub fn get_loan(&self, project_id: u32) -> (r: Option<Loan>)
        ensures
            r == self@.loan(project_id),
    {
        match self.book_index(project_id) {
            Some(idx) => self.books[idx].loan,
            None => None,
        }
    }
}

} // verus!
