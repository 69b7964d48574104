use vstd::prelude::*;
use crate::model::{
    after_problem, after_solution, has_unsolved, payout_ops, problem_error, solution_error,
    solver_share, treasury_share, MarketModel,
};
use crate::types::{AccountId, Balance, Error, LedgerOp};

verus! {

/// Once a problem has been posted under `number`, any later attempt to post
/// under the same number fails with `ProblemAlreadySubmitted`.
pub proof fn lemma_number_posted_once(
    m: MarketModel,
    author: AccountId,
    number: u32,
    prize: Balance,
    free_balance: Balance,
    author2: AccountId,
    prize2: Balance,
    free_balance2: Balance,
)
    requires
        problem_error(m, author, number, prize, free_balance) is None,
    ensures
        problem_error(after_problem(m, author, number, prize), author2, number, prize2, free_balance2)
            == Some(Error::ProblemAlreadySubmitted),
{
}

/// While an author's problem is open, the same author cannot post a problem
/// under any new number: the attempt fails with `AuthorAlreadySubmittedUnsolvedProblem`.
pub proof fn lemma_one_open_problem_per_author(
    m: MarketModel,
    author: AccountId,
    number: u32,
    prize: Balance,
    free_balance: Balance,
    number2: u32,
    prize2: Balance,
    free_balance2: Balance,
)
    requires
        problem_error(m, author, number, prize, free_balance) is None,
        number2 != number,
        !m.problems.contains_key(number2),
    ensures
        problem_error(after_problem(m, author, number, prize), author, number2, prize2, free_balance2)
            == Some(Error::AuthorAlreadySubmittedUnsolvedProblem),
{
    let m1 = after_problem(m, author, number, prize);
    assert(m1.problems.contains_key(number));
}

/// Once an author's problem has been solved, the author may post again: a new
/// number with a prize the free balance covers is accepted.
pub proof fn lemma_author_may_post_after_solution(
    m: MarketModel,
    author: AccountId,
    number: u32,
    prize: Balance,
    free_balance: Balance,
    solver: AccountId,
    factor1: u32,
    factor2: u32,
    number2: u32,
    prize2: Balance,
    free_balance2: Balance,
)
    requires
        problem_error(m, author, number, prize, free_balance) is None,
        solution_error(after_problem(m, author, number, prize), solver, number, factor1, factor2)
            is None,
        number2 != number,
        !m.problems.contains_key(number2),
        prize2 <= free_balance2,
    ensures
        problem_error(
            after_solution(after_problem(m, author, number, prize), solver, number, factor1, factor2),
            author,
            number2,
            prize2,
            free_balance2,
        ) is None,
{
    let m2 = after_solution(after_problem(m, author, number, prize), solver, number, factor1, factor2);
    if has_unsolved(m2.problems, author) {
        let n = choose|n: u32|
            #[trigger] m2.problems.contains_key(n) && m2.problems[n].author == author
                && !m2.problems[n].solved;
        assert(m.problems.contains_key(n));
    }
}

/// A problem is solved at most once: after a solution is accepted, every further
/// answer to the same number fails with `ProblemAlreadySolved`.
pub proof fn lemma_solved_once(
    m: MarketModel,
    solver: AccountId,
    number: u32,
    factor1: u32,
    factor2: u32,
    solver2: AccountId,
    factor1b: u32,
    factor2b: u32,
)
    requires
        solution_error(m, solver, number, factor1, factor2) is None,
    ensures
        solution_error(after_solution(m, solver, number, factor1, factor2), solver2, number, factor1b, factor2b)
            == Some(Error::ProblemAlreadySolved),
{
}

/// The author of a problem cannot answer it: the attempt fails with `SameAuthor`,
/// whatever the factors.
pub proof fn lemma_author_cannot_solve_own(
    m: MarketModel,
    author: AccountId,
    number: u32,
    prize: Balance,
    free_balance: Balance,
    factor1: u32,
    factor2: u32,
)
    requires
        problem_error(m, author, number, prize, free_balance) is None,
    ensures
        solution_error(after_problem(m, author, number, prize), author, number, factor1, factor2)
            == Some(Error::SameAuthor),
{
}

/// The two shares of every prize are exact balances that add up to the prize, and
/// the rounding goes to the treasury: its share is at least a fifth, rounded down.
pub proof fn lemma_prize_split(prize: Balance)
    ensures
        0 <= solver_share(prize) <= prize,
        0 <= treasury_share(prize) <= prize,
        solver_share(prize) + treasury_share(prize) == prize,
        treasury_share(prize) >= prize / 5,
{
    assert(0 <= prize * 80 / 100 <= prize) by (nonlinear_arith)
        requires prize >= 0;
    assert(prize - prize * 80 / 100 >= prize / 5) by (nonlinear_arith)
        requires prize >= 0;
}

/// Paying out a problem releases its author's hold entirely, then moves the
/// solver's and the treasury's shares out of the author's account; the two
/// transfers add up to the whole prize.
pub proof fn lemma_payout_moves_whole_prize(m: MarketModel, solver: AccountId, number: u32)
    requires
        m.problems.contains_key(number),
    ensures
        ({
            let p = m.problems[number];
            let ops = payout_ops(m, solver, number);
            &&& ops.len() == 3
            &&& ops[0] == LedgerOp::RemoveLock { who: p.author }
            &&& ops[1] is Transfer && ops[1]->Transfer_from == p.author
                && ops[1]->Transfer_to == solver
            &&& ops[2] is Transfer && ops[2]->Transfer_from == p.author
                && ops[2]->Transfer_to == m.treasury
            &&& ops[1]->Transfer_amount + ops[2]->Transfer_amount == p.prize
            &&& ops[1]->Transfer_amount == solver_share(p.prize)
        }),
{
    lemma_prize_split(m.problems[number].prize);
}

/// Posting a problem keeps the market's invariant: problems stay under their own
/// numbers, solutions exist exactly for solved problems, and no author has two
/// open problems.
pub proof fn lemma_posting_keeps_invariant(
    m: MarketModel,
    author: AccountId,
    number: u32,
    prize: Balance,
    free_balance: Balance,
)
    requires
        m.inv(),
        problem_error(m, author, number, prize, free_balance) is None,
    ensures
        after_problem(m, author, number, prize).inv(),
{
    let m1 = after_problem(m, author, number, prize);
    assert forall|n1: u32, n2: u32|
        m1.problems.contains_key(n1) && m1.problems.contains_key(n2) && !m1.problems[n1].solved
            && !m1.problems[n2].solved && m1.problems[n1].author == m1.problems[n2].author
        implies n1 == n2 by {
        if n1 != number && n2 != number {
            assert(m.problems.contains_key(n1) && m.problems.contains_key(n2));
        } else if n1 != number {
            assert(m.problems.contains_key(n1));
        } else if n2 != number {
            assert(m.problems.contains_key(n2));
        }
    }
}

/// Accepting a solution keeps the market's invariant.
pub proof fn lemma_solving_keeps_invariant(
    m: MarketModel,
    solver: AccountId,
    number: u32,
    factor1: u32,
    factor2: u32,
)
    requires
        m.inv(),
        solution_error(m, solver, number, factor1, factor2) is None,
    ensures
        after_solution(m, solver, number, factor1, factor2).inv(),
{
    let m2 = after_solution(m, solver, number, factor1, factor2);
    assert forall|n1: u32, n2: u32|
        m2.problems.contains_key(n1) && m2.problems.contains_key(n2) && !m2.problems[n1].solved
            && !m2.problems[n2].solved && m2.problems[n1].author == m2.problems[n2].author
        implies n1 == n2 by {
        assert(m.problems.contains_key(n1) && m.problems.contains_key(n2));
    }
}

} // verus!
