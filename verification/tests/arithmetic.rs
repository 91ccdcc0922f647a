use bochica_lending::math::{checked_mul_div, checked_percent_of, mul_div, percent_of};
use bochica_lending::rules::{
    can_plan_claim, can_plan_deposit, can_plan_withdraw, new_project, plan_claim, plan_deposit,
    plan_repay, plan_withdraw, ClaimPlan, DepositPlan, RepayPlan, WithdrawPlan,
};
use bochica_lending::{AccountId, Error, Investment, Loan, Project, ProjectStatus};

fn who(tag: u8) -> AccountId {
    AccountId([tag; 32])
}

fn project(status: ProjectStatus, funding: u128) -> Project {
    Project {
        creator: who(1),
        goal_amount: 1000,
        current_funding: funding,
        interest_rate: 10,
        status,
    }
}

fn loan(repaid: bool) -> Loan {
    Loan { amount: 1078, interest_rate: 10, total_repayment: 1185, due_date: 77, repaid }
}

fn stake(claimed: bool) -> Investment {
    Investment { investor: who(2), amount: 490, lockup_end: 100, claimed }
}

#[test]
fn percentages_round_down() {
    assert_eq!(percent_of(500, 2), 10);
    assert_eq!(percent_of(600, 2), 12);
    assert_eq!(percent_of(1078, 10), 107);
    assert_eq!(percent_of(49, 2), 0);
    assert_eq!(percent_of(50, 2), 1);
    assert_eq!(percent_of(99, 2), 1);
    assert_eq!(percent_of(0, 255), 0);
    assert_eq!(percent_of(1, 100), 1);
    assert_eq!(percent_of(199, 50), 99);
    assert_eq!(percent_of(1000, 255), 2550);
}

#[test]
fn percentages_of_the_largest_amounts_do_not_overflow() {
    assert_eq!(percent_of(u128::MAX, 100), u128::MAX);
    assert_eq!(percent_of(u128::MAX, 0), 0);
    assert_eq!(percent_of(u128::MAX, 2), u128::MAX / 50);
    assert_eq!(percent_of(u128::MAX, 50), u128::MAX / 2);
    assert_eq!(percent_of(u128::MAX / 2, 200), u128::MAX - 1);
}

#[test]
fn shares_round_down() {
    assert_eq!(mul_div(490, 1185, 1078), 538);
    assert_eq!(mul_div(588, 1185, 1078), 646);
    assert_eq!(mul_div(0, 1185, 1078), 0);
    assert_eq!(mul_div(1078, 1185, 1078), 1185);
    assert_eq!(mul_div(1, 1, 2), 0);
    assert_eq!(mul_div(1, 3, 2), 1);
    assert_eq!(mul_div(7, 0, 3), 0);
    assert_eq!(mul_div(10, 10, 3), 33);
    assert_eq!(mul_div(2156, 1185, 1078), 2370);
}

#[test]
fn shares_agree_with_plain_arithmetic_where_the_product_fits() {
    for a in 0u128..40 {
        for b in 0u128..40 {
            for c in 1u128..40 {
                assert_eq!(mul_div(a, b, c), a * b / c);
            }
        }
    }
}

#[test]
fn shares_of_the_largest_amounts_do_not_overflow() {
    assert_eq!(mul_div(u128::MAX, u128::MAX, u128::MAX), u128::MAX);
    assert_eq!(mul_div(u128::MAX - 1, u128::MAX, u128::MAX), u128::MAX - 1);
    assert_eq!(mul_div(u128::MAX, u128::MAX - 1, u128::MAX), u128::MAX - 1);
    assert_eq!(mul_div(1 << 127, 1 << 127, 1 << 127), 1 << 127);
    assert_eq!(mul_div(1 << 100, 1 << 100, 1 << 101), 1 << 99);
    assert_eq!(mul_div(u128::MAX / 3, 3, 1), u128::MAX);
    assert_eq!(mul_div((1 << 127) - 1, 3, 1 << 127), 2);
    assert_eq!(mul_div(u128::MAX / 2, u128::MAX, u128::MAX - 1), u128::MAX / 2);
}

#[test]
fn new_project_is_active_and_empty() {
    assert_eq!(
        new_project(who(9), 5, 6),
        Project {
            creator: who(9),
            goal_amount: 5,
            current_funding: 0,
            interest_rate: 6,
            status: ProjectStatus::Active,
        }
    );
}

#[test]
fn deposit_rule_decides_in_order() {
    let active = Some(project(ProjectStatus::Active, 0));
    assert_eq!(plan_deposit(None, 2, who(2), 0, 0, 0), Err(Error::ZeroAmount));
    assert_eq!(
        plan_deposit(Some(project(ProjectStatus::Funded, 1078)), 2, who(2), 0, 0, 0),
        Err(Error::ZeroAmount)
    );
    assert_eq!(plan_deposit(None, 2, who(2), 5, 0, 0), Err(Error::ProjectNotFound));
    for status in [ProjectStatus::Funded, ProjectStatus::Borrowed, ProjectStatus::Repaid] {
        assert_eq!(
            plan_deposit(Some(project(status, 1078)), 2, who(2), 5, 0, 0),
            Err(Error::ProjectNotActive)
        );
    }
    assert_eq!(
        plan_deposit(active, 2, who(2), 500, 7, 100),
        Ok(DepositPlan {
            fee: 10,
            project: project(ProjectStatus::Active, 490),
            investment: Investment { investor: who(2), amount: 490, lockup_end: 107, claimed: false },
        })
    );
    assert_eq!(
        plan_deposit(Some(project(ProjectStatus::Active, 490)), 2, who(3), 600, 5, 100),
        Ok(DepositPlan {
            fee: 12,
            project: project(ProjectStatus::Funded, 1078),
            investment: Investment { investor: who(3), amount: 588, lockup_end: 105, claimed: false },
        })
    );
    assert_eq!(plan_deposit(active, 100, who(2), 500, 0, 0).unwrap().fee, 500);
    assert_eq!(plan_deposit(active, 0, who(2), 500, 0, 0).unwrap().fee, 0);
}

#[test]
fn deposit_rule_reaches_the_limits_of_the_types() {
    let plan = plan_deposit(
        Some(project(ProjectStatus::Active, u128::MAX - 98)),
        2,
        who(2),
        100,
        u64::MAX - 1,
        1,
    )
    .unwrap();
    assert_eq!(plan.project.current_funding, u128::MAX);
    assert_eq!(plan.investment.lockup_end, u64::MAX);
    assert_eq!(plan.project.status, ProjectStatus::Funded);
}

#[test]
fn withdraw_rule_decides_in_order() {
    assert_eq!(plan_withdraw(None, who(1), 0), Err(Error::ProjectNotFound));
    assert_eq!(
        plan_withdraw(Some(project(ProjectStatus::Active, 5)), who(2), 0),
        Err(Error::Unauthorized)
    );
    assert_eq!(
        plan_withdraw(Some(project(ProjectStatus::Funded, 1078)), who(2), 0),
        Err(Error::Unauthorized)
    );
    for status in [ProjectStatus::Active, ProjectStatus::Borrowed, ProjectStatus::Repaid] {
        assert_eq!(
            plan_withdraw(Some(project(status, 1078)), who(1), 0),
            Err(Error::ProjectNotFunded)
        );
    }
    assert_eq!(
        plan_withdraw(Some(project(ProjectStatus::Funded, 1078)), who(1), 10),
        Ok(WithdrawPlan {
            amount: 1078,
            project: project(ProjectStatus::Borrowed, 1078),
            loan: Loan {
                amount: 1078,
                interest_rate: 10,
                total_repayment: 1185,
                due_date: 2_592_000_010,
                repaid: false,
            },
        })
    );
}

#[test]
fn withdraw_rule_charges_no_interest_at_rate_zero_and_the_most_at_the_highest_rate() {
    let mut p = project(ProjectStatus::Funded, 1000);
    p.interest_rate = 0;
    assert_eq!(plan_withdraw(Some(p), who(1), 0).unwrap().loan.total_repayment, 1000);
    p.interest_rate = 255;
    assert_eq!(plan_withdraw(Some(p), who(1), 0).unwrap().loan.total_repayment, 3550);
    p.interest_rate = 1;
    p.current_funding = 99;
    assert_eq!(plan_withdraw(Some(p), who(1), 0).unwrap().loan.total_repayment, 99);
}

#[test]
fn repay_rule_decides_in_order() {
    let borrowed = Some(project(ProjectStatus::Borrowed, 1078));
    assert_eq!(plan_repay(None, Some(loan(false)), who(1), 5000), Err(Error::ProjectNotFound));
    assert_eq!(plan_repay(borrowed, None, who(2), 5000), Err(Error::Unauthorized));
    assert_eq!(plan_repay(borrowed, None, who(1), 5000), Err(Error::LoanNotFound));
    assert_eq!(plan_repay(borrowed, Some(loan(true)), who(1), 0), Err(Error::AlreadyRepaid));
    assert_eq!(
        plan_repay(borrowed, Some(loan(false)), who(1), 1184),
        Err(Error::InsufficientRepayment)
    );
    assert_eq!(
        plan_repay(borrowed, Some(loan(false)), who(1), 1185),
        Ok(RepayPlan { project: project(ProjectStatus::Repaid, 1078), loan: loan(true) })
    );
    assert_eq!(
        plan_repay(borrowed, Some(loan(false)), who(1), u128::MAX),
        Ok(RepayPlan { project: project(ProjectStatus::Repaid, 1078), loan: loan(true) })
    );
}

#[test]
fn claim_rule_decides_in_order() {
    let repaid = Some(project(ProjectStatus::Repaid, 1078));
    assert_eq!(plan_claim(None, None, None, 0), Err(Error::InvestmentNotFound));
    assert_eq!(plan_claim(Some(stake(true)), None, None, 0), Err(Error::AlreadyClaimed));
    assert_eq!(plan_claim(Some(stake(false)), None, None, 0), Err(Error::LoanNotFound));
    assert_eq!(
        plan_claim(Some(stake(false)), Some(loan(false)), None, 0),
        Err(Error::LoanNotRepaid)
    );
    assert_eq!(
        plan_claim(Some(stake(false)), Some(loan(true)), None, 99),
        Err(Error::LockupNotExpired)
    );
    assert_eq!(
        plan_claim(Some(stake(false)), Some(loan(true)), None, 100),
        Err(Error::ProjectNotFound)
    );
    assert_eq!(
        plan_claim(Some(stake(false)), Some(loan(true)), repaid, 100),
        Ok(ClaimPlan { share: 538, investment: stake(true) })
    );
}

#[test]
fn identities_are_equal_exactly_when_their_bytes_are() {
    let mut bytes = [7u8; 32];
    assert!(AccountId(bytes) == who(7));
    for i in 0..32 {
        bytes[i] = 8;
        assert!(AccountId(bytes) != who(7));
        bytes[i] = 7;
    }
    assert!(AccountId(bytes) == who(7));
    assert!(who(0) != who(1));
}

#[test]
fn checked_percentages_give_nothing_beyond_the_type() {
    assert_eq!(checked_percent_of(500, 2), Some(10));
    assert_eq!(checked_percent_of(u128::MAX, 100), Some(u128::MAX));
    assert_eq!(checked_percent_of(u128::MAX, 101), None);
    assert_eq!(checked_percent_of(u128::MAX, 255), None);
    assert_eq!(checked_percent_of(u128::MAX / 2, 200), Some(u128::MAX - 1));
    assert_eq!(checked_percent_of(u128::MAX / 2 + 1, 200), None);
    assert_eq!(checked_percent_of(0, 255), Some(0));
}

#[test]
fn checked_shares_give_nothing_beyond_the_type() {
    assert_eq!(checked_mul_div(490, 1185, 1078), Some(538));
    assert_eq!(checked_mul_div(u128::MAX, 2, 1), None);
    assert_eq!(checked_mul_div(u128::MAX, 2, 2), Some(u128::MAX));
    assert_eq!(checked_mul_div(u128::MAX, u128::MAX, u128::MAX - 1), None);
    assert_eq!(checked_mul_div(u128::MAX, u128::MAX, u128::MAX), Some(u128::MAX));
    assert_eq!(checked_mul_div(1 << 64, 1 << 64, 1), None);
    assert_eq!(checked_mul_div(1 << 64, 1 << 63, 1), Some(1 << 127));
    assert_eq!(checked_mul_div(3, 1 << 127, 2), Some(3 << 126));
    assert_eq!(checked_mul_div(3, (1 << 127) - 1, 2), Some((3 << 126) - 2));
    assert_eq!(checked_mul_div(3, u128::MAX, 2), None);
    assert_eq!(checked_mul_div(4, 1 << 127, 2), None);
}

#[test]
fn deposit_limits_are_told_apart() {
    let open = |funding: u128| Some(project(ProjectStatus::Active, funding));
    assert!(can_plan_deposit(open(0), 2, 500, 0, 100));
    assert!(can_plan_deposit(open(u128::MAX - 98), 2, 100, u64::MAX - 1, 1));
    assert!(!can_plan_deposit(open(u128::MAX - 97), 2, 100, 0, 0));
    assert!(!can_plan_deposit(open(0), 2, 100, u64::MAX, 1));
    assert!(can_plan_deposit(open(0), 100, 100, 0, 0));
    assert!(!can_plan_deposit(open(0), 101, 100, 0, 0));
    assert!(can_plan_deposit(open(0), 101, 99, 0, 0));
    assert!(!can_plan_deposit(open(0), 255, u128::MAX, 0, 0));
    assert!(can_plan_deposit(open(u128::MAX), 2, 0, u64::MAX, u64::MAX));
    assert!(can_plan_deposit(None, 255, u128::MAX, u64::MAX, u64::MAX));
    assert!(can_plan_deposit(
        Some(project(ProjectStatus::Funded, u128::MAX)),
        255,
        u128::MAX,
        u64::MAX,
        u64::MAX
    ));
}

#[test]
fn withdrawal_limits_are_told_apart() {
    let funded = |funding: u128| Some(project(ProjectStatus::Funded, funding));
    assert!(can_plan_withdraw(funded(1078), who(1), 10));
    assert!(can_plan_withdraw(funded(u128::MAX / 11 * 10), who(1), 0));
    assert!(!can_plan_withdraw(funded(u128::MAX), who(1), 0));
    assert!(!can_plan_withdraw(funded(u128::MAX - 5), who(1), 0));
    assert!(can_plan_withdraw(funded(1078), who(1), u64::MAX - 2_592_000_000));
    assert!(!can_plan_withdraw(funded(1078), who(1), u64::MAX - 2_592_000_000 + 1));
    assert!(can_plan_withdraw(funded(u128::MAX), who(2), u64::MAX));
    assert!(can_plan_withdraw(Some(project(ProjectStatus::Active, u128::MAX)), who(1), u64::MAX));
    assert!(can_plan_withdraw(None, who(1), u64::MAX));
}

#[test]
fn claim_limits_are_told_apart() {
    let repaid = |funding: u128| Some(project(ProjectStatus::Repaid, funding));
    assert!(can_plan_claim(Some(stake(false)), Some(loan(true)), repaid(1078), 100));
    assert!(!can_plan_claim(Some(stake(false)), Some(loan(true)), repaid(0), 100));
    assert!(can_plan_claim(Some(stake(false)), Some(loan(true)), repaid(0), 99));
    assert!(can_plan_claim(Some(stake(true)), Some(loan(true)), repaid(0), 100));
    assert!(can_plan_claim(Some(stake(false)), Some(loan(false)), repaid(0), 100));
    assert!(can_plan_claim(None, Some(loan(true)), repaid(0), 100));
    assert!(can_plan_claim(Some(stake(false)), None, repaid(0), 100));
    assert!(can_plan_claim(Some(stake(false)), Some(loan(true)), None, 100));
    let mut huge = loan(true);
    huge.total_repayment = u128::MAX;
    assert!(can_plan_claim(Some(stake(false)), Some(huge), repaid(490), 100));
    assert!(!can_plan_claim(Some(stake(false)), Some(huge), repaid(489), 100));
}
