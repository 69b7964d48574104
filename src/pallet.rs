use std::collections::HashMap;
use vstd::prelude::*;
use vstd::arithmetic::div_mod::{lemma_fundamental_div_mod, lemma_hoist_over_denominator};
use crate::model::{
    after_problem, after_solution, empty_market, has_unsolved, payout_ops, problem_error,
    solution_error, solver_share, treasury_share, MarketModel,
};
use crate::prime::{divides, is_prime, lemma_trial_division_complete};
use crate::types::{AccountId, Balance, Dispatch, Error, Event, LedgerOp, Problem, Solution};

verus! {

broadcast use vstd::std_specs::hash::group_hash_axioms;

/// The bounty market: the problem and solution stores, an index from each author
/// to their open problem, and the treasury account that receives the market's
/// share of each prize.
pub struct Pallet {
    problems: HashMap<u32, Problem>,
    solutions: HashMap<u32, Solution>,
    open_by_author: HashMap<AccountId, u32>,
    treasury: AccountId,
}

impl View for Pallet {
    type V = MarketModel;

    closed spec fn view(&self) -> MarketModel {
        MarketModel {
            problems: self.problems@,
            solutions: self.solutions@,
            treasury: self.treasury,
        }
    }
}

/// Splits a prize into the solver's share (eighty percent, rounded down) and the
/// treasury's share (the rest), without overflow for any prize.
pub fn split_prize(prize: Balance) -> (r: (Balance, Balance))
    ensures
        r.0 == solver_share(prize),
        r.1 == treasury_share(prize),
        r.0 + r.1 == prize,
{
    let q: u128 = prize / 100;
    let rem: u128 = prize % 100;
    let to_solver: u128 = q * 80 + rem * 80 / 100;
    proof {
        lemma_fundamental_div_mod(prize as int, 100);
        assert(prize * 80 == rem * 80 + (q * 80) * 100) by (nonlinear_arith)
            requires prize == 100 * q + rem;
        lemma_hoist_over_denominator(rem * 80, q * 80, 100);
        assert(to_solver <= prize) by (nonlinear_arith)
            requires to_solver == q * 80 + rem * 80 / 100, prize == 100 * q + rem, rem < 100;
    }
    (to_solver, prize - to_solver)
}

impl Pallet {
    /// The stores agree with the model's invariant, and the author index names
    /// exactly each author's open problem.
    pub closed spec fn wf(&self) -> bool {
        &&& self@.inv()
        &&& forall|a: AccountId| #[trigger]
            self.open_by_author@.contains_key(a) ==> {
                let n = self.open_by_author@[a];
                &&& self.problems@.contains_key(n)
                &&& self.problems@[n].author == a
                &&& !self.problems@[n].solved
            }
        &&& forall|n: u32| #[trigger]
            self.problems@.contains_key(n) && !self.problems@[n].solved
                ==> self.open_by_author@.contains_key(self.problems@[n].author)
    }

    /// A well-formed market satisfies the model's invariant.
    pub proof fn lemma_wf_inv(&self)
        requires
            self.wf(),
        ensures
            self@.inv(),
    {
    }

    /// An empty market paying its share into `treasury`.
    pub fn new(treasury: AccountId) -> (r: Pallet)
        ensures
            r.wf(),
            r@ == empty_market(treasury),
    {
        let r = Pallet {
            problems: HashMap::new(),
            solutions: HashMap::new(),
            open_by_author: HashMap::new(),
            treasury,
        };
        assert(r@.problems =~= Map::empty());
        r
    }

    /// The treasury account.
    pub fn account_id(&self) -> (r: AccountId)
        ensures
            r == self@.treasury,
    {
        self.treasury
    }

    /// The problem stored under `number`, if any.
    pub fn problems(&self, number: u32) -> (r: Option<Problem>)
        ensures
            r == (if self@.problems.contains_key(number) {
                Some(self@.problems[number])
            } else {
                None
            }),
    {
        match self.problems.get(&number) {
            Some(p) => Some(*p),
            None => None,
        }
    }

    /// The accepted solution stored under `number`, if any.
    pub fn solutions(&self, number: u32) -> (r: Option<Solution>)
        ensures
            r == (if self@.solutions.contains_key(number) {
                Some(self@.solutions[number])
            } else {
                None
            }),
    {
        match self.solutions.get(&number) {
            Some(s) => Some(*s),
            None => None,
        }
    }

    /// Trial division: `num` is prime.
    pub fn check_prime(num: u32) -> (r: bool)
        ensures
            r == is_prime(num as nat),
    {
        if num < 2 {
            return false;
        }
        let n: u64 = num as u64;
        let mut i: u64 = 2;
        while i * i <= n
            invariant
                n == num as u64,
                n >= 2,
                2 <= i <= 65536,
                i * i <= 0x1_0000_0000u64,
                forall|d: nat| 2 <= d < i ==> !#[trigger] divides(d, n as nat),
            decreases 65536 - i,
        {
            assert(i < 65536) by (nonlinear_arith)
                requires i * i <= n, n < 0x1_0000_0000u64, i >= 2;
            if n % i == 0 {
                assert(i < n) by (nonlinear_arith)
                    requires i * i <= n, i >= 2;
                assert(divides(i as nat, n as nat));
                return false;
            }
            i = i + 1;
            assert(i * i <= 0x1_0000_0000u64) by (nonlinear_arith)
                requires i <= 65536;
        }
        proof {
            lemma_trial_division_complete(n as nat, i as nat);
        }
        true
    }

    /// `author`, whose free balance is `author_free_balance`, posts `number` with `prize`.
    /// On success the caller places the returned hold and emits the event.
    pub fn submit_problem(
        &mut self,
        author: AccountId,
        number: u32,
        prize: Balance,
        author_free_balance: Balance,
    ) -> (r: Result<Dispatch, Error>)
        requires
            old(self).wf(),
        ensures
            final(self).wf(),
            match problem_error(old(self)@, author, number, prize, author_free_balance) {
                Some(e) => r == Err::<Dispatch, Error>(e) && *final(self) == *old(self),
                None => {
                    &&& r is Ok
                    &&& final(self)@ == after_problem(old(self)@, author, number, prize)
                    &&& r->Ok_0.ops@ == seq![LedgerOp::SetLock { who: author, amount: prize }]
                    &&& r->Ok_0.event == Event::ProblemSubmitted(author, number, prize)
                },
            },
    {
        if self.problems.contains_key(&number) {
            return Err(Error::ProblemAlreadySubmitted);
        }
        if self.open_by_author.contains_key(&author) {
            proof {
                let n = self.open_by_author@[author];
                assert(self.problems@.contains_key(n));
            }
            return Err(Error::AuthorAlreadySubmittedUnsolvedProblem);
        }
        assert(!has_unsolved(self.problems@, author));
        if author_free_balance < prize {
            return Err(Error::NotEnoughFunds);
        }
        let problem = Problem { author, number, prize, solved: false };
        self.problems.insert(number, problem);
        self.open_by_author.insert(author, number);
        assert(self@ == after_problem(old(self)@, author, number, prize));
        let ops = vec![LedgerOp::SetLock { who: author, amount: prize }];
        Ok(Dispatch { ops, event: Event::ProblemSubmitted(author, number, prize) })
    }
    /// Checks `solver`'s answer to `number` against the stores, in order, and on
    /// success gives the payout that solving it takes. Changes nothing.
    pub fn solution_payout(
        &self,
        solver: AccountId,
        number: u32,
        factor1: u32,
        factor2: u32,
    ) -> (r: Result<Dispatch, Error>)
        ensures
            match solution_error(self@, solver, number, factor1, factor2) {
                Some(e) => r == Err::<Dispatch, Error>(e),
                None => {
                    &&& r is Ok
                    &&& r->Ok_0.ops@ == payout_ops(self@, solver, number)
                    &&& r->Ok_0.event == Event::SolutionSubmitted(
                        solver,
                        number,
                        (factor1, factor2),
                        solver_share(self@.problems[number].prize) as Balance,
                    )
                },
            },
    {
        let problem = match self.problems.get(&number) {
            Some(p) => *p,
            None => return Err(Error::ProblemNotFound),
        };
        if problem.solved {
            return Err(Error::ProblemAlreadySolved);
        }
        if problem.author == solver {
            return Err(Error::SameAuthor);
        }
        assert((factor1 as u64) * (factor2 as u64) <= 0xffff_fffe_0000_0001u64) by (nonlinear_arith)
            requires factor1 <= 0xffff_ffffu32, factor2 <= 0xffff_ffffu32;
        let is_correct = (factor1 as u64) * (factor2 as u64) == number as u64
            && Self::check_prime(factor1) && Self::check_prime(factor2);
        if !is_correct {
            return Err(Error::IncorrectSolution);
        }
        let (to_solver, to_treasury) = split_prize(problem.prize);
        let ops = vec![
            LedgerOp::RemoveLock { who: problem.author },
            LedgerOp::Transfer { from: problem.author, to: solver, amount: to_solver },
            LedgerOp::Transfer { from: problem.author, to: self.treasury, amount: to_treasury },
        ];
        Ok(Dispatch { ops, event: Event::SolutionSubmitted(solver, number, (factor1, factor2), to_solver) })
    }

    /// `solver` answers `number` with `factor1` and `factor2`. `payout_succeeded` says
    /// whether the ledger carried out the operations that `solution_payout` gave for
    /// the same arguments. The stores change only when the answer is right and the
    /// payout went through; otherwise nothing changes.
    pub fn submit_solution(
        &mut self,
        solver: AccountId,
        number: u32,
        factor1: u32,
        factor2: u32,
        payout_succeeded: bool,
    ) -> (r: Result<Dispatch, Error>)
        requires
            old(self).wf(),
        ensures
            final(self).wf(),
            match solution_error(old(self)@, solver, number, factor1, factor2) {
                Some(e) => r == Err::<Dispatch, Error>(e) && *final(self) == *old(self),
                None => if payout_succeeded {
                    &&& r is Ok
                    &&& final(self)@ == after_solution(old(self)@, solver, number, factor1, factor2)
                    &&& r->Ok_0.ops@ == payout_ops(old(self)@, solver, number)
                    &&& r->Ok_0.event == Event::SolutionSubmitted(
                        solver,
                        number,
                        (factor1, factor2),
                        solver_share(old(self)@.problems[number].prize) as Balance,
                    )
                    &&& !has_unsolved(final(self)@.problems, old(self)@.problems[number].author)
                } else {
                    r == Err::<Dispatch, Error>(Error::NotEnoughFunds) && *final(self) == *old(self)
                },
            },
    {
        let dispatch = match self.solution_payout(solver, number, factor1, factor2) {
            Ok(d) => d,
            Err(e) => return Err(e),
        };
        if !payout_succeeded {
            return Err(Error::NotEnoughFunds);
        }
        let problem = match self.problems.get(&number) {
            Some(p) => *p,
            None => return Err(Error::ProblemNotFound),
        };
        let ghost before = self@;
        self.solutions.insert(
            number,
            Solution { author: solver, number, factors: (factor1, factor2) },
        );
        self.problems.insert(
            number,
            Problem { author: problem.author, number: problem.number, prize: problem.prize, solved: true },
        );
        self.open_by_author.remove(&problem.author);
        assert(self@.problems =~= after_solution(before, solver, number, factor1, factor2).problems);
        proof {
            if has_unsolved(self@.problems, problem.author) {
                let n = choose|n: u32|
                    #[trigger] self@.problems.contains_key(n) && self@.problems[n].author
                        == problem.author && !self@.problems[n].solved;
                assert(before.problems.contains_key(n) && before.problems.contains_key(number));
            }
            assert forall|a: AccountId| #[trigger] self.open_by_author@.contains_key(a) implies {
                let n = self.open_by_author@[a];
                &&& self.problems@.contains_key(n)
                &&& self.problems@[n].author == a
                &&& !self.problems@[n].solved
            } by {
                assert(old(self).open_by_author@.contains_key(a));
            }
            assert forall|n: u32| #[trigger]
                self.problems@.contains_key(n) && !self.problems@[n].solved implies
                self.open_by_author@.contains_key(self.problems@[n].author) by {
                assert(before.problems.contains_key(n) && before.problems.contains_key(number));
            }
        }
        Ok(dispatch)
    }

    /// Reports the treasury's free balance, which the caller reads from the ledger.
    pub fn pot(&self, treasury_free_balance: Balance) -> (r: Result<Dispatch, Error>)
        ensures
            r is Ok,
            r->Ok_0.ops@.len() == 0,
            r->Ok_0.event == Event::PotInfo(treasury_free_balance),
    {
        Ok(Dispatch { ops: Vec::new(), event: Event::PotInfo(treasury_free_balance) })
    }
}

} // verus!
