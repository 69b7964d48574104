use vstd::prelude::*;
use crate::prime::is_prime;
use crate::types::{AccountId, Balance, Error, LedgerOp, Problem, Solution};

verus! {

/// The market's state as mathematics: both stores and the treasury account.
pub struct MarketModel {
    pub problems: Map<u32, Problem>,
    pub solutions: Map<u32, Solution>,
    pub treasury: AccountId,
}

/// `author` has posted a problem that is still open.
pub open spec fn has_unsolved(problems: Map<u32, Problem>, author: AccountId) -> bool {
    exists|n: u32|
        #[trigger] problems.contains_key(n) && problems[n].author == author && !problems[n].solved
}

impl MarketModel {
    /// Every problem sits under its own number; a solution exists exactly for the
    /// solved problems; no author has two open problems.
    pub open spec fn inv(self) -> bool {
        &&& forall|n: u32| #[trigger]
            self.problems.contains_key(n) ==> self.problems[n].number == n
        &&& forall|n: u32| #[trigger]
            self.solutions.contains_key(n) ==> self.problems.contains_key(n)
                && self.problems[n].solved && self.solutions[n].number == n
        &&& forall|n: u32| #[trigger]
            self.problems.contains_key(n) && self.problems[n].solved
                ==> self.solutions.contains_key(n)
        &&& forall|n1: u32, n2: u32|
            #![trigger self.problems.contains_key(n1), self.problems.contains_key(n2)]
            self.problems.contains_key(n1) && self.problems.contains_key(n2)
                && !self.problems[n1].solved && !self.problems[n2].solved
                && self.problems[n1].author == self.problems[n2].author ==> n1 == n2
    }
}

/// The empty market whose treasury is `treasury`.
pub open spec fn empty_market(treasury: AccountId) -> MarketModel {
    MarketModel { problems: Map::empty(), solutions: Map::empty(), treasury }
}

/// The first precondition of posting a problem that fails, if any.
pub open spec fn problem_error(
    m: MarketModel,
    author: AccountId,
    number: u32,
    prize: Balance,
    free_balance: Balance,
) -> Option<Error> {
    if m.problems.contains_key(number) {
        Some(Error::ProblemAlreadySubmitted)
    } else if has_unsolved(m.problems, author) {
        Some(Error::AuthorAlreadySubmittedUnsolvedProblem)
    } else if free_balance < prize {
        Some(Error::NotEnoughFunds)
    } else {
        None
    }
}

/// The market after `author` has posted `number` with `prize`.
pub open spec fn after_problem(
    m: MarketModel,
    author: AccountId,
    number: u32,
    prize: Balance,
) -> MarketModel {
    MarketModel {
        problems: m.problems.insert(number, Problem { author, number, prize, solved: false }),
        ..m
    }
}

/// Both factors are prime and their product is `number`.
pub open spec fn is_correct_solution(number: u32, factor1: u32, factor2: u32) -> bool {
    factor1 * factor2 == number && is_prime(factor1 as nat) && is_prime(factor2 as nat)
}

/// The first precondition of solving a problem that fails, if any.
pub open spec fn solution_error(
    m: MarketModel,
    solver: AccountId,
    number: u32,
    factor1: u32,
    factor2: u32,
) -> Option<Error> {
    if !m.problems.contains_key(number) {
        Some(Error::ProblemNotFound)
    } else if m.problems[number].solved {
        Some(Error::ProblemAlreadySolved)
    } else if m.problems[number].author == solver {
        Some(Error::SameAuthor)
    } else if !is_correct_solution(number, factor1, factor2) {
        Some(Error::IncorrectSolution)
    } else {
        None
    }
}

/// The market after `solver` has solved `number` with the given factors.
pub open spec fn after_solution(
    m: MarketModel,
    solver: AccountId,
    number: u32,
    factor1: u32,
    factor2: u32,
) -> MarketModel {
    MarketModel {
        problems: m.problems.insert(number, Problem { solved: true, ..m.problems[number] }),
        solutions: m.solutions.insert(
            number,
            Solution { author: solver, number, factors: (factor1, factor2) },
        ),
        treasury: m.treasury,
    }
}

/// The solver's share of a prize: eighty percent, rounded down.
pub open spec fn solver_share(prize: Balance) -> int {
    prize * 80 / 100
}

/// The treasury's share of a prize: what the solver's share leaves.
pub open spec fn treasury_share(prize: Balance) -> int {
    prize - solver_share(prize)
}

/// The ledger operations that pay out `number`'s prize to `solver`: release the
/// author's hold, then pay the solver and the treasury from the author's account.
pub open spec fn payout_ops(m: MarketModel, solver: AccountId, number: u32) -> Seq<LedgerOp> {
    let p = m.problems[number];
    seq![
        LedgerOp::RemoveLock { who: p.author },
        LedgerOp::Transfer { from: p.author, to: solver, amount: solver_share(p.prize) as Balance },
        LedgerOp::Transfer {
            from: p.author,
            to: m.treasury,
            amount: treasury_share(p.prize) as Balance,
        },
    ]
}

} // verus!
