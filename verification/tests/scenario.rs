use bochica_lending::rules::LOAN_PERIOD;
use bochica_lending::{
    AccountId, BochicaLending, Claimed, Deposited, Error, Investment, Loan, Project,
    ProjectStatus, Repaid, Transfer, Withdrawn,
};

fn account(tag: u8) -> AccountId {
    AccountId([tag; 32])
}

fn wallet() -> AccountId {
    account(200)
}

fn creator() -> AccountId {
    account(1)
}

fn alice() -> AccountId {
    account(2)
}

fn bob() -> AccountId {
    account(3)
}

/// A platform with one project of goal 1000 at 10 percent, funded by alice
/// (500 at time 0, locked for 100) and bob (600 at time 5, locked for 100).
fn funded() -> BochicaLending {
    let mut engine = BochicaLending::new(wallet());
    assert_eq!(engine.create_project(creator(), 1000, 10), 1);
    engine.deposit(alice(), 0, 500, 1, 100, true).unwrap();
    engine.deposit(bob(), 5, 600, 1, 100, true).unwrap();
    engine
}

fn borrowed() -> BochicaLending {
    let mut engine = funded();
    engine.withdraw(creator(), 10, 1, true).unwrap();
    engine
}

fn repaid() -> BochicaLending {
    let mut engine = borrowed();
    engine.repay(creator(), 1185, 1).unwrap();
    engine
}

#[test]
fn fresh_platform_holds_nothing() {
    let engine = BochicaLending::new(wallet());
    assert_eq!(engine.get_platform_wallet(), wallet());
    assert_eq!(engine.get_project(0), None);
    assert_eq!(engine.get_project(1), None);
    assert_eq!(engine.get_loan(1), None);
    assert_eq!(engine.get_investment(1, alice()), None);
}

#[test]
fn project_ids_start_at_one_and_go_up() {
    let mut engine = BochicaLending::new(wallet());
    assert_eq!(engine.create_project(creator(), 1000, 10), 1);
    assert_eq!(engine.create_project(alice(), 0, 255), 2);
    assert_eq!(engine.create_project(creator(), u128::MAX, 0), 3);
    assert_eq!(
        engine.get_project(1),
        Some(Project {
            creator: creator(),
            goal_amount: 1000,
            current_funding: 0,
            interest_rate: 10,
            status: ProjectStatus::Active,
        })
    );
    assert_eq!(
        engine.get_project(2),
        Some(Project {
            creator: alice(),
            goal_amount: 0,
            current_funding: 0,
            interest_rate: 255,
            status: ProjectStatus::Active,
        })
    );
    assert_eq!(engine.get_project(3).unwrap().goal_amount, u128::MAX);
    assert_eq!(engine.get_project(4), None);
    assert_eq!(engine.get_project(0), None);
}

#[test]
fn first_deposit_takes_the_fee_and_keeps_the_project_active() {
    let mut engine = BochicaLending::new(wallet());
    engine.create_project(creator(), 1000, 10);
    assert_eq!(
        engine.deposit_transfer(alice(), 0, 500, 1, 100),
        Ok(Some(Transfer { to: wallet(), amount: 10 }))
    );
    assert_eq!(
        engine.deposit(alice(), 0, 500, 1, 100, true),
        Ok(Deposited { project_id: 1, investor: alice(), amount: 500, net_amount: 490 })
    );
    let project = engine.get_project(1).unwrap();
    assert_eq!(project.current_funding, 490);
    assert_eq!(project.status, ProjectStatus::Active);
    assert_eq!(
        engine.get_investment(1, alice()),
        Some(Investment { investor: alice(), amount: 490, lockup_end: 100, claimed: false })
    );
    assert_eq!(engine.get_investment(1, bob()), None);
    assert_eq!(engine.get_loan(1), None);
}

#[test]
fn deposit_that_reaches_the_goal_funds_the_project() {
    let mut engine = BochicaLending::new(wallet());
    engine.create_project(creator(), 1000, 10);
    engine.deposit(alice(), 0, 500, 1, 100, true).unwrap();
    assert_eq!(
        engine.deposit_transfer(bob(), 5, 600, 1, 100),
        Ok(Some(Transfer { to: wallet(), amount: 12 }))
    );
    assert_eq!(
        engine.deposit(bob(), 5, 600, 1, 100, true),
        Ok(Deposited { project_id: 1, investor: bob(), amount: 600, net_amount: 588 })
    );
    let project = engine.get_project(1).unwrap();
    assert_eq!(project.current_funding, 1078);
    assert_eq!(project.status, ProjectStatus::Funded);
    assert_eq!(
        engine.get_investment(1, bob()),
        Some(Investment { investor: bob(), amount: 588, lockup_end: 105, claimed: false })
    );
    assert_eq!(engine.get_investment(1, alice()).unwrap().amount, 490);
}

#[test]
fn withdrawal_lends_the_funding_with_interest() {
    let mut engine = funded();
    assert_eq!(
        engine.withdraw_transfer(creator(), 10, 1),
        Ok(Transfer { to: creator(), amount: 1078 })
    );
    assert_eq!(
        engine.withdraw(creator(), 10, 1, true),
        Ok(Withdrawn { project_id: 1, creator: creator(), amount: 1078 })
    );
    assert_eq!(
        engine.get_loan(1),
        Some(Loan {
            amount: 1078,
            interest_rate: 10,
            total_repayment: 1185,
            due_date: 10 + 30 * 24 * 60 * 60 * 1000,
            repaid: false,
        })
    );
    assert_eq!(LOAN_PERIOD, 2_592_000_000);
    let project = engine.get_project(1).unwrap();
    assert_eq!(project.status, ProjectStatus::Borrowed);
    assert_eq!(project.current_funding, 1078);
}

#[test]
fn repayment_of_what_is_owed_repays_the_project() {
    let mut engine = borrowed();
    assert_eq!(engine.repay(creator(), 1185, 1), Ok(Repaid { project_id: 1, amount: 1185 }));
    assert_eq!(engine.get_project(1).unwrap().status, ProjectStatus::Repaid);
    let loan = engine.get_loan(1).unwrap();
    assert!(loan.repaid);
    assert_eq!(loan.total_repayment, 1185);
    assert_eq!(loan.amount, 1078);
}

#[test]
fn payouts_are_pro_rata_and_leave_the_rounding_behind() {
    let mut engine = repaid();
    assert_eq!(
        engine.claim_transfer(alice(), 100, 1),
        Ok(Transfer { to: alice(), amount: 538 })
    );
    assert_eq!(
        engine.claim(alice(), 100, 1, true),
        Ok(Claimed { project_id: 1, investor: alice(), amount: 538 })
    );
    assert_eq!(
        engine.claim_transfer(bob(), 105, 1),
        Ok(Transfer { to: bob(), amount: 646 })
    );
    assert_eq!(
        engine.claim(bob(), 105, 1, true),
        Ok(Claimed { project_id: 1, investor: bob(), amount: 646 })
    );
    assert_eq!(538 + 646, 1184);
    assert!(538 + 646 <= engine.get_loan(1).unwrap().total_repayment);
    assert!(engine.get_investment(1, alice()).unwrap().claimed);
    assert!(engine.get_investment(1, bob()).unwrap().claimed);
    assert_eq!(engine.get_investment(1, alice()).unwrap().amount, 490);
    assert_eq!(engine.get_project(1).unwrap().current_funding, 1078);
    assert_eq!(engine.get_project(1).unwrap().status, ProjectStatus::Repaid);
}

#[test]
fn stakes_add_up_to_the_funding_when_each_investor_deposits_once() {
    let mut engine = BochicaLending::new(wallet());
    engine.create_project(creator(), 1_000_000, 5);
    let mut sum: u128 = 0;
    for tag in 10u8..40 {
        let amount = 1000 + 37 * tag as u128;
        engine.deposit(account(tag), tag as u64, amount, 1, 50, true).unwrap();
        sum += engine.get_investment(1, account(tag)).unwrap().amount;
        assert_eq!(engine.get_project(1).unwrap().current_funding, sum);
    }
    let mut again: u128 = 0;
    for tag in 10u8..40 {
        again += engine.get_investment(1, account(tag)).unwrap().amount;
    }
    assert_eq!(again, engine.get_project(1).unwrap().current_funding);
}

#[test]
fn second_deposit_of_an_investor_replaces_the_stake() {
    let mut engine = BochicaLending::new(wallet());
    engine.create_project(creator(), 10_000, 10);
    engine.deposit(alice(), 0, 500, 1, 100, true).unwrap();
    engine.deposit(alice(), 50, 300, 1, 20, true).unwrap();
    assert_eq!(
        engine.get_investment(1, alice()),
        Some(Investment { investor: alice(), amount: 294, lockup_end: 70, claimed: false })
    );
    assert_eq!(engine.get_project(1).unwrap().current_funding, 490 + 294);
}

#[test]
fn funding_beyond_the_goal_is_kept() {
    let mut engine = BochicaLending::new(wallet());
    engine.create_project(creator(), 100, 10);
    engine.deposit(alice(), 0, 1000, 1, 0, true).unwrap();
    let project = engine.get_project(1).unwrap();
    assert_eq!(project.current_funding, 980);
    assert_eq!(project.status, ProjectStatus::Funded);
    assert_eq!(engine.withdraw_transfer(creator(), 0, 1).unwrap().amount, 980);
}

#[test]
fn deposit_that_exactly_meets_the_goal_funds_the_project() {
    let mut engine = BochicaLending::new(wallet());
    engine.create_project(creator(), 980, 10);
    engine.deposit(alice(), 0, 1000, 1, 0, true).unwrap();
    assert_eq!(engine.get_project(1).unwrap().status, ProjectStatus::Funded);
    let mut other = BochicaLending::new(wallet());
    other.create_project(creator(), 981, 10);
    other.deposit(alice(), 0, 1000, 1, 0, true).unwrap();
    assert_eq!(other.get_project(1).unwrap().status, ProjectStatus::Active);
}

#[test]
fn small_deposit_owes_no_fee_and_needs_no_transfer() {
    let mut engine = BochicaLending::new(wallet());
    engine.create_project(creator(), 1000, 10);
    assert_eq!(engine.deposit_transfer(alice(), 0, 49, 1, 0), Ok(None));
    assert_eq!(
        engine.deposit(alice(), 0, 49, 1, 0, false),
        Ok(Deposited { project_id: 1, investor: alice(), amount: 49, net_amount: 49 })
    );
    assert_eq!(
        engine.deposit_transfer(bob(), 0, 50, 1, 0),
        Ok(Some(Transfer { to: wallet(), amount: 1 }))
    );
}

#[test]
fn project_without_a_goal_is_funded_by_its_first_deposit() {
    let mut engine = BochicaLending::new(wallet());
    engine.create_project(creator(), 0, 10);
    assert_eq!(engine.get_project(1).unwrap().status, ProjectStatus::Active);
    assert_eq!(engine.withdraw(creator(), 0, 1, true), Err(Error::ProjectNotFunded));
    engine.deposit(alice(), 0, 1, 1, 0, true).unwrap();
    let project = engine.get_project(1).unwrap();
    assert_eq!(project.status, ProjectStatus::Funded);
    assert_eq!(project.current_funding, 1);
}

#[test]
fn repayment_above_what_is_owed_is_taken_whole() {
    let mut engine = borrowed();
    assert_eq!(engine.repay(creator(), 5000, 1), Ok(Repaid { project_id: 1, amount: 5000 }));
    assert_eq!(engine.get_loan(1).unwrap().total_repayment, 1185);
    assert_eq!(engine.claim_transfer(alice(), 100, 1).unwrap().amount, 538);
}

#[test]
fn projects_do_not_touch_each_other() {
    let mut engine = funded();
    assert_eq!(engine.create_project(bob(), 50, 20), 2);
    engine.deposit(alice(), 7, 100, 2, 1, true).unwrap();
    assert_eq!(engine.get_project(1).unwrap().current_funding, 1078);
    assert_eq!(engine.get_investment(1, alice()).unwrap().amount, 490);
    assert_eq!(
        engine.get_investment(2, alice()),
        Some(Investment { investor: alice(), amount: 98, lockup_end: 8, claimed: false })
    );
    assert_eq!(engine.get_investment(2, bob()), None);
    engine.withdraw(bob(), 9, 2, true).unwrap();
    assert_eq!(engine.get_loan(1), None);
    assert_eq!(engine.get_loan(2).unwrap().total_repayment, 98 + 19);
    assert_eq!(engine.get_project(1).unwrap().status, ProjectStatus::Funded);
}

#[test]
fn large_amounts_are_paid_out_exactly() {
    let mut engine = BochicaLending::new(wallet());
    let unit: u128 = 1_000_000_000_000_000_000_000_000_000_000;
    engine.create_project(creator(), 150 * unit, 7);
    engine.deposit(alice(), 0, 100 * unit, 1, 0, true).unwrap();
    engine.deposit(bob(), 0, 100 * unit, 1, 0, true).unwrap();
    assert_eq!(engine.get_project(1).unwrap().current_funding, 196 * unit);
    engine.withdraw(creator(), 0, 1, true).unwrap();
    let owed = 196 * unit + 196 * unit * 7 / 100;
    assert_eq!(engine.get_loan(1).unwrap().total_repayment, owed);
    engine.repay(creator(), owed, 1).unwrap();
    assert_eq!(engine.claim(alice(), 0, 1, true).unwrap().amount, owed / 2);
    assert_eq!(engine.claim(bob(), 0, 1, true).unwrap().amount, owed / 2);
}

#[test]
fn engine_tells_whether_the_numbers_fit() {
    let mut engine = BochicaLending::new(wallet());
    assert!(engine.can_create_project());
    engine.create_project(creator(), u128::MAX, 255);
    assert!(engine.can_deposit(0, 500, 1, 100));
    assert!(!engine.can_deposit(u64::MAX, 500, 1, 1));
    assert!(engine.can_deposit(u64::MAX, 0, 1, 1));
    assert!(engine.can_deposit(u64::MAX, 500, 2, 1));
    engine.deposit(alice(), 0, u128::MAX, 1, 0, true).unwrap();
    assert_eq!(engine.get_project(1).unwrap().current_funding, u128::MAX - u128::MAX / 50);
    assert!(!engine.can_deposit(0, u128::MAX, 1, 0));
    assert!(engine.can_deposit(0, 1, 1, 0));
    assert!(engine.can_withdraw(creator(), 0, 1));
    engine.create_project(creator(), 100, 255);
    engine.deposit(alice(), 0, u128::MAX, 2, 0, true).unwrap();
    assert_eq!(engine.get_project(2).unwrap().status, ProjectStatus::Funded);
    assert!(!engine.can_withdraw(creator(), 0, 2));
    assert!(engine.can_withdraw(alice(), 0, 2));
    assert!(engine.can_withdraw(creator(), 0, 3));
}

#[test]
fn whole_life_of_a_project() {
    let mut engine = BochicaLending::new(wallet());
    let id = engine.create_project(creator(), 1000, 10);
    assert_eq!(id, 1);

    let mut moved: Vec<Transfer> = Vec::new();

    if let Some(transfer) = engine.deposit_transfer(alice(), 0, 500, id, 100).unwrap() {
        moved.push(transfer);
    }
    let deposited = engine.deposit(alice(), 0, 500, id, 100, true).unwrap();
    assert_eq!((deposited.amount, deposited.net_amount), (500, 490));
    assert_eq!(engine.get_project(id).unwrap().current_funding, 490);
    assert_eq!(engine.get_project(id).unwrap().status, ProjectStatus::Active);

    if let Some(transfer) = engine.deposit_transfer(bob(), 0, 600, id, 100).unwrap() {
        moved.push(transfer);
    }
    let deposited = engine.deposit(bob(), 0, 600, id, 100, true).unwrap();
    assert_eq!((deposited.amount, deposited.net_amount), (600, 588));
    assert_eq!(engine.get_project(id).unwrap().current_funding, 1078);
    assert_eq!(engine.get_project(id).unwrap().status, ProjectStatus::Funded);

    moved.push(engine.withdraw_transfer(creator(), 0, id).unwrap());
    let withdrawn = engine.withdraw(creator(), 0, id, true).unwrap();
    assert_eq!(withdrawn.amount, 1078);
    let loan = engine.get_loan(id).unwrap();
    assert_eq!(loan.total_repayment - loan.amount, 107);
    assert_eq!(loan.total_repayment, 1185);

    let repaid = engine.repay(creator(), 1185, id).unwrap();
    assert_eq!(repaid.amount, 1185);
    assert_eq!(engine.get_project(id).unwrap().status, ProjectStatus::Repaid);

    moved.push(engine.claim_transfer(alice(), 100, id).unwrap());
    let first = engine.claim(alice(), 100, id, true).unwrap();
    moved.push(engine.claim_transfer(bob(), 100, id).unwrap());
    let second = engine.claim(bob(), 100, id, true).unwrap();
    assert_eq!(first.amount, 538);
    assert_eq!(second.amount, 646);
    assert_eq!(first.amount + second.amount, 1184);
    assert_eq!(loan.total_repayment - (first.amount + second.amount), 1);

    assert_eq!(
        moved,
        vec![
            Transfer { to: wallet(), amount: 10 },
            Transfer { to: wallet(), amount: 12 },
            Transfer { to: creator(), amount: 1078 },
            Transfer { to: alice(), amount: 538 },
            Transfer { to: bob(), amount: 646 },
        ]
    );
}
