use prime_product::pallet::{split_prize, Pallet};
use prime_product::types::{Error, Event, LedgerOp, Problem, Solution};

const TREASURY: u64 = 1000;
const ALICE: u64 = 1;
const BOB: u64 = 2;
const CAROL: u64 = 3;

fn naive_prime(n: u32) -> bool {
    n >= 2 && (2..n).all(|d| n % d != 0)
}

#[test]
fn check_prime_small_values() {
    assert!(!Pallet::check_prime(0));
    assert!(!Pallet::check_prime(1));
    assert!(Pallet::check_prime(2));
    assert!(Pallet::check_prime(3));
    assert!(!Pallet::check_prime(4));
    assert!(Pallet::check_prime(5));
    assert!(!Pallet::check_prime(9));
    assert!(!Pallet::check_prime(25));
}

#[test]
fn check_prime_matches_definition_up_to_ten_thousand() {
    for n in 0..=10_000u32 {
        assert_eq!(Pallet::check_prime(n), naive_prime(n), "n = {}", n);
    }
}

#[test]
fn check_prime_large_values() {
    assert!(Pallet::check_prime(65537));
    assert!(Pallet::check_prime(4_294_967_291));
    assert!(!Pallet::check_prime(4_294_967_295));
    assert!(!Pallet::check_prime(65537 * 65521));
}

#[test]
fn new_market_is_empty() {
    let p = Pallet::new(TREASURY);
    assert_eq!(p.account_id(), TREASURY);
    assert_eq!(p.problems(15), None);
    assert_eq!(p.solutions(15), None);
}

#[test]
fn submit_problem_succeeds_once() {
    let mut p = Pallet::new(TREASURY);
    let d = p.submit_problem(ALICE, 15, 100, 500).unwrap();
    assert_eq!(d.ops, vec![LedgerOp::SetLock { who: ALICE, amount: 100 }]);
    assert_eq!(d.event, Event::ProblemSubmitted(ALICE, 15, 100));
    assert_eq!(
        p.problems(15),
        Some(Problem { author: ALICE, number: 15, prize: 100, solved: false })
    );
    let again = p.submit_problem(BOB, 15, 100, 500);
    assert_eq!(again.unwrap_err(), Error::ProblemAlreadySubmitted);
    let again_same_author = p.submit_problem(ALICE, 15, 50, 500);
    assert_eq!(again_same_author.unwrap_err(), Error::ProblemAlreadySubmitted);
}

#[test]
fn submit_problem_needs_free_balance() {
    let mut p = Pallet::new(TREASURY);
    assert_eq!(p.submit_problem(ALICE, 15, 100, 99).unwrap_err(), Error::NotEnoughFunds);
    assert_eq!(p.problems(15), None);
    assert!(p.submit_problem(ALICE, 15, 100, 100).is_ok());
}

#[test]
fn one_open_problem_per_author() {
    let mut p = Pallet::new(TREASURY);
    p.submit_problem(ALICE, 15, 100, 500).unwrap();
    assert_eq!(
        p.submit_problem(ALICE, 21, 10, 500).unwrap_err(),
        Error::AuthorAlreadySubmittedUnsolvedProblem
    );
    assert_eq!(p.problems(21), None);
    // another author is not held back
    assert!(p.submit_problem(BOB, 21, 10, 500).is_ok());
    // once the first problem is solved the author may post again
    p.submit_solution(CAROL, 15, 3, 5, true).unwrap();
    assert!(p.submit_problem(ALICE, 35, 10, 500).is_ok());
}

#[test]
fn correct_solution_is_accepted() {
    let mut p = Pallet::new(TREASURY);
    p.submit_problem(ALICE, 15, 100, 500).unwrap();
    let plan = p.solution_payout(BOB, 15, 3, 5).unwrap();
    let d = p.submit_solution(BOB, 15, 3, 5, true).unwrap();
    assert_eq!(plan.ops, d.ops);
    assert_eq!(d.event, Event::SolutionSubmitted(BOB, 15, (3, 5), 80));
    assert_eq!(
        p.problems(15),
        Some(Problem { author: ALICE, number: 15, prize: 100, solved: true })
    );
    assert_eq!(p.solutions(15), Some(Solution { author: BOB, number: 15, factors: (3, 5) }));
}

#[test]
fn factors_must_be_prime() {
    let mut p = Pallet::new(TREASURY);
    p.submit_problem(ALICE, 12, 100, 500).unwrap();
    assert_eq!(p.submit_solution(BOB, 12, 3, 4, true).unwrap_err(), Error::IncorrectSolution);
    assert_eq!(p.solutions(12), None);
    assert!(!p.problems(12).unwrap().solved);
}

#[test]
fn factors_must_multiply_to_number() {
    let mut p = Pallet::new(TREASURY);
    p.submit_problem(ALICE, 15, 100, 500).unwrap();
    assert_eq!(p.submit_solution(BOB, 15, 3, 7, true).unwrap_err(), Error::IncorrectSolution);
    assert_eq!(p.submit_solution(BOB, 15, 1, 15, true).unwrap_err(), Error::IncorrectSolution);
}

#[test]
fn factor_product_does_not_wrap() {
    // 65537 * 65537 wraps to 131073 in 32 bits
    let mut p = Pallet::new(TREASURY);
    p.submit_problem(ALICE, 131_073, 100, 500).unwrap();
    assert_eq!(
        p.submit_solution(BOB, 131_073, 65537, 65537, true).unwrap_err(),
        Error::IncorrectSolution
    );
}

#[test]
fn payout_splits_eighty_twenty() {
    let mut p = Pallet::new(TREASURY);
    p.submit_problem(ALICE, 15, 100, 500).unwrap();
    let d = p.submit_solution(BOB, 15, 3, 5, true).unwrap();
    assert_eq!(
        d.ops,
        vec![
            LedgerOp::RemoveLock { who: ALICE },
            LedgerOp::Transfer { from: ALICE, to: BOB, amount: 80 },
            LedgerOp::Transfer { from: ALICE, to: TREASURY, amount: 20 },
        ]
    );
}

#[test]
fn payout_rounding_goes_to_treasury() {
    assert_eq!(split_prize(100), (80, 20));
    assert_eq!(split_prize(99), (79, 20));
    assert_eq!(split_prize(7), (5, 2));
    assert_eq!(split_prize(1), (0, 1));
    assert_eq!(split_prize(0), (0, 0));
    for prize in 0..1000u128 {
        let (a, b) = split_prize(prize);
        assert_eq!(a, prize * 80 / 100);
        assert_eq!(a + b, prize);
    }
}

#[test]
fn payout_split_of_largest_prize() {
    let (a, b) = split_prize(u128::MAX);
    assert_eq!(a + b, u128::MAX);
    assert_eq!(a, u128::MAX / 100 * 80 + (u128::MAX % 100) * 80 / 100);
}

#[test]
fn problem_solved_only_once() {
    let mut p = Pallet::new(TREASURY);
    p.submit_problem(ALICE, 15, 100, 500).unwrap();
    p.submit_solution(BOB, 15, 3, 5, true).unwrap();
    assert_eq!(p.solution_payout(CAROL, 15, 5, 3).unwrap_err(), Error::ProblemAlreadySolved);
    assert_eq!(p.submit_solution(CAROL, 15, 5, 3, true).unwrap_err(), Error::ProblemAlreadySolved);
    assert_eq!(p.solutions(15), Some(Solution { author: BOB, number: 15, factors: (3, 5) }));
}

#[test]
fn author_cannot_solve_own_problem() {
    let mut p = Pallet::new(TREASURY);
    p.submit_problem(ALICE, 15, 100, 500).unwrap();
    assert_eq!(p.submit_solution(ALICE, 15, 3, 5, true).unwrap_err(), Error::SameAuthor);
    assert!(!p.problems(15).unwrap().solved);
}

#[test]
fn unknown_problem_is_not_found() {
    let mut p = Pallet::new(TREASURY);
    assert_eq!(p.submit_solution(BOB, 15, 3, 5, true).unwrap_err(), Error::ProblemNotFound);
}

#[test]
fn failed_payout_leaves_state_unchanged() {
    let mut p = Pallet::new(TREASURY);
    p.submit_problem(ALICE, 15, 100, 500).unwrap();
    assert_eq!(p.submit_solution(BOB, 15, 3, 5, false).unwrap_err(), Error::NotEnoughFunds);
    assert_eq!(p.solutions(15), None);
    assert!(!p.problems(15).unwrap().solved);
    // the author's problem is still open
    assert_eq!(
        p.submit_problem(ALICE, 21, 10, 500).unwrap_err(),
        Error::AuthorAlreadySubmittedUnsolvedProblem
    );
    // and it can still be solved
    assert!(p.submit_solution(BOB, 15, 3, 5, true).is_ok());
}

#[test]
fn pot_reports_treasury_balance() {
    let p = Pallet::new(TREASURY);
    let d = p.pot(1234).unwrap();
    assert!(d.ops.is_empty());
    assert_eq!(d.event, Event::PotInfo(1234));
}
