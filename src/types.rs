use vstd::prelude::*;

verus! {

/// Identity of a caller or of an account on the ledger.
pub type AccountId = u64;

/// Amount denominated in the ledger's balance unit.
pub type Balance = u128;

/// A posted factoring challenge with an escrowed prize.
#[derive(Clone, Copy, Debug, PartialEq, Eq, Structural)]
pub struct Problem {
    pub author: AccountId,
    pub number: u32,
    pub prize: Balance,
    pub solved: bool,
}

/// The accepted factor pair answering a problem.
#[derive(Clone, Copy, Debug, PartialEq, Eq)]
pub struct Solution {
    pub author: AccountId,
    pub number: u32,
    pub factors: (u32, u32),
}

/// Notifications written to the event sink after a successful call.
#[derive(Clone, Copy, Debug, PartialEq, Eq)]
pub enum Event {
    /// A problem was posted: author, number, prize.
    ProblemSubmitted(AccountId, u32, Balance),
    /// A solution was accepted: solver, number, factors, the solver's share of the prize.
    SolutionSubmitted(AccountId, u32, (u32, u32), Balance),
    /// The treasury's free balance.
    PotInfo(Balance),
}

/// Why a call was refused. A refused call changes nothing.
#[derive(Clone, Copy, Debug, PartialEq, Eq, Structural)]
pub enum Error {
    ProblemAlreadySubmitted,
    ProblemAlreadySolved,
    AuthorAlreadySubmittedUnsolvedProblem,
    IncorrectSolution,
    ProblemNotFound,
    SameAuthor,
    NotEnoughFunds,
}

/// An operation on the currency ledger that the market asks for.
#[derive(Clone, Copy, Debug, PartialEq, Eq, Structural)]
pub enum LedgerOp {
    /// Place the market's named hold on `who` for exactly `amount`,
    /// replacing any earlier hold of the same name.
    SetLock { who: AccountId, amount: Balance },
    /// Remove the market's named hold from `who`.
    RemoveLock { who: AccountId },
    /// Move `amount` from `from` to `to`, keeping `from` alive.
    Transfer { from: AccountId, to: AccountId, amount: Balance },
}

/// What a successful call hands back: the ledger operations to perform,
/// in order and as one unit, and the event to emit.
#[derive(Clone, Debug)]
pub struct Dispatch {
    pub ops: Vec<LedgerOp>,
    pub event: Event,
}

} // verus!
