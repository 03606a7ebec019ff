use vstd::prelude::*;

verus! {

/// How a guess relates to the secret number.
#[derive(Clone, Copy, Debug, PartialEq, Eq, Structural)]
pub enum GameOutcome {
    TooSmall,
    TooBig,
    Win,
}

/// The outcome the game owes for a guess against a secret.
pub open spec fn spec_outcome(guess: u32, secret: u32) -> GameOutcome {
    if guess < secret {
        GameOutcome::TooSmall
    } else if guess > secret {
        GameOutcome::TooBig
    } else {
        GameOutcome::Win
    }
}

/// Decides one round of the guessing game.
pub fn outcome(guess: u32, secret: u32) -> (r: GameOutcome)
    ensures
        r == spec_outcome(guess, secret),
{
    if guess < secret {
        GameOutcome::TooSmall
    } else if guess > secret {
        GameOutcome::TooBig
    } else {
        GameOutcome::Win
    }
}

impl GameOutcome {
    /// The line the game prints for the outcome.
    pub fn message(&self) -> (m: &'static str)
        ensures
            *self == GameOutcome::TooSmall ==> m@ == "Too small!"@,
            *self == GameOutcome::TooBig ==> m@ == "Too big!"@,
            *self == GameOutcome::Win ==> m@ == "You win!"@,
    {
        match self {
            GameOutcome::TooSmall => "Too small!",
            GameOutcome::TooBig => "Too big!",
            GameOutcome::Win => "You win!",
        }
    }
}

} // verus!
