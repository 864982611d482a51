use vstd::prelude::*;
use crate::digits::{dec_chars, digits_value, lemma_dec_chars_digits, lemma_dec_chars_value};
use crate::parse::{parse_guess, parse_guess_spec, trim_spec};

verus! {

/// Feedback emitted after one successfully parsed guess.
#[derive(Clone, Copy, Debug, PartialEq, Eq, Structural)]
pub enum Feedback {
    TooSmall,
    TooBig,
    Win,
}

/// The session is either waiting for the next guess or over.
#[derive(Clone, Copy, Debug, PartialEq, Eq, Structural)]
pub enum GameState {
    AwaitingInput,
    Won,
}

/// One guessing-game session: a fixed secret and the session state.
#[derive(Clone, Copy, Debug, PartialEq, Eq, Structural)]
pub struct GuessingGame {
    pub secret: u32,
    pub state: GameState,
}

/// The message printed for each kind of feedback.
pub open spec fn message_spec(f: Feedback) -> Seq<char> {
    match f {
        Feedback::TooSmall => "Too small!"@,
        Feedback::TooBig => "Too big!"@,
        Feedback::Win => "You win!"@,
    }
}

/// What one line of input does to a session: text that is not a guess
/// changes nothing and yields no feedback; a guess below or above the secret
/// yields feedback and leaves the session waiting; a guess equal to the
/// secret wins and ends the session.
pub open spec fn step_spec(g: GuessingGame, line: Seq<char>) -> (GuessingGame, Option<Feedback>) {
    match parse_guess_spec(line) {
        None => (g, None),
        Some(v) => if v < g.secret {
            (g, Some(Feedback::TooSmall))
        } else if v > g.secret {
            (g, Some(Feedback::TooBig))
        } else {
            (GuessingGame { secret: g.secret, state: GameState::Won }, Some(Feedback::Win))
        },
    }
}

impl Feedback {
    /// The message to print for this feedback.
    pub fn message(&self) -> (r: &'static str)
        ensures
            r@ == message_spec(*self),
    {
        match self {
            Feedback::TooSmall => "Too small!",
            Feedback::TooBig => "Too big!",
            Feedback::Win => "You win!",
        }
    }
}

impl GuessingGame {
    /// The secret always lies in the closed range [1, 100].
    pub open spec fn wf(self) -> bool {
        1 <= self.secret <= 100
    }

    /// Start a session around the given secret, waiting for the first guess.
    pub fn new(secret: u32) -> (r: GuessingGame)
        requires
            1 <= secret <= 100,
        ensures
            r.wf(),
            r.secret == secret,
            r.state == GameState::AwaitingInput,
    {
        GuessingGame { secret, state: GameState::AwaitingInput }
    }

    /// Has the secret been guessed?
    pub fn won(&self) -> (r: bool)
        ensures
            r == (self.state == GameState::Won),
    {
        self.state == GameState::Won
    }

    /// Feed one line of input to the session. A line that does not parse as
    /// a guess is discarded without feedback and without changing the
    /// session; a parsed guess is compared three-way against the secret, and
    /// only an exact match ends the session.
    pub fn guess(&mut self, line: &str) -> (r: Option<Feedback>)
        requires
            old(self).wf(),
            old(self).state == GameState::AwaitingInput,
        ensures
            final(self).wf(),
            final(self).secret == old(self).secret,
            (*final(self), r) == step_spec(*old(self), line@),
    {
        match parse_guess(line) {
            None => None,
            Some(v) => {
                if v < self.secret {
                    Some(Feedback::TooSmall)
                } else if v > self.secret {
                    Some(Feedback::TooBig)
                } else {
                    self.state = GameState::Won;
                    Some(Feedback::Win)
                }
            },
        }
    }
}

/// Map an arbitrary seed to a secret in the closed range [1, 100].
pub fn secret_from_seed(seed: u64) -> (r: u32)
    ensures
        1 <= r <= 100,
        r as u64 == seed % 100 + 1,
{
    (seed % 100) as u32 + 1
}

/// Law: for every secret the session may hold, a line whose trimmed text is
/// exactly the decimal representation of the secret wins: it yields the win
/// feedback and moves the session to its terminal state.
pub proof fn lemma_exact_guess_wins(g: GuessingGame, line: Seq<char>)
    requires
        g.wf(),
        trim_spec(line) == dec_chars(g.secret as nat),
    ensures
        step_spec(g, line) == ((GuessingGame { secret: g.secret, state: GameState::Won }), Some(
            Feedback::Win,
        )),
{
    lemma_dec_chars_digits(g.secret as nat);
    lemma_dec_chars_value(g.secret as nat);
}

/// Law: a guess strictly below the secret yields the too-small feedback and
/// leaves the session exactly as it was, still waiting for input.
pub proof fn lemma_low_guess_continues(g: GuessingGame, line: Seq<char>, v: u32)
    requires
        g.state == GameState::AwaitingInput,
        parse_guess_spec(line) == Some(v),
        v < g.secret,
    ensures
        step_spec(g, line) == (g, Some(Feedback::TooSmall)),
        step_spec(g, line).0.state == GameState::AwaitingInput,
{
}

/// Law: a guess strictly above the secret yields the too-big feedback and
/// leaves the session exactly as it was, still waiting for input.
pub proof fn lemma_high_guess_continues(g: GuessingGame, line: Seq<char>, v: u32)
    requires
        g.state == GameState::AwaitingInput,
        parse_guess_spec(line) == Some(v),
        v > g.secret,
    ensures
        step_spec(g, line) == (g, Some(Feedback::TooBig)),
        step_spec(g, line).0.state == GameState::AwaitingInput,
{
}

/// Law: a line that does not parse as a guess yields no feedback and leaves
/// the session exactly as it was.
pub proof fn lemma_bad_input_keeps_state(g: GuessingGame, line: Seq<char>)
    requires
        parse_guess_spec(line) == None::<u32>,
    ensures
        step_spec(g, line) == (g, None::<Feedback>),
{
}

/// Law: a line whose trimmed text is all digits but denotes a value too
/// large to represent is treated exactly like any non-numeric line.
pub proof fn lemma_out_of_range_like_non_numeric(g: GuessingGame, big: Seq<char>, junk: Seq<char>)
    requires
        digits_value(trim_spec(big)) > u32::MAX as nat,
        parse_guess_spec(junk) == None::<u32>,
    ensures
        parse_guess_spec(big) == None::<u32>,
        step_spec(g, big) == step_spec(g, junk),
{
}

} // verus!
