use crate::text::{decimal, push_decimal, push_repeated, repeat_char, string_push};
use rand::RngExt;
use vstd::prelude::*;

verus! {

/// How hard the generated problems are.
#[derive(Clone, Copy, Debug, PartialEq, Eq)]
pub enum Difficulty {
    /// Single-digit divisor and quotient, no remainder.
    Easy,
    /// Three-digit dividend, two-digit divisor, with a remainder.
    Hard,
}

impl Difficulty {
    /// The name shown for this difficulty.
    pub fn label(&self) -> (r: &'static str)
        ensures
            r@ == (match *self {
                Difficulty::Easy => "Easy"@,
                Difficulty::Hard => "Hard"@,
            }),
    {
        match self {
            Difficulty::Easy => "Easy",
            Difficulty::Hard => "Hard",
        }
    }

    /// Whether answers at this difficulty include a remainder.
    pub fn has_remainder(&self) -> (r: bool)
        ensures
            r == (*self is Hard),
    {
        matches!(self, Difficulty::Hard)
    }
}

/// The generator handle of `rand` (`rand::rngs::ThreadRng`), carried through opaquely.
#[verifier::external_type_specification]
#[verifier::external_body]
pub struct ExThreadRng(rand::rngs::ThreadRng);

/// Calls `rand::rng`, which hands out the thread-local generator.
/// Nothing is stated of the handle: what it yields depends on chance.
#[verifier::external_body]
fn thread_rng() -> rand::rngs::ThreadRng {
    rand::rng()
}

/// Calls `RngExt::random_range` with the inclusive range `low..=high` on `u32`.
/// The contract claims only that the value lies in that range, which rand's
/// uniform integer sampler guarantees; which value comes out rests on chance.
/// The range must not be empty: rand panics on an empty range.
#[verifier::external_body]
fn random_in_range(rng: &mut rand::rngs::ThreadRng, low: u32, high: u32) -> (r: u32)
    requires
        low <= high,
    ensures
        low <= r <= high,
{
    rng.random_range(low..=high)
}

/// A value drawn uniformly from `low..=high` by the thread-local generator.
fn draw_random(low: u32, high: u32) -> (r: u32)
    requires
        low <= high,
    ensures
        low <= r <= high,
{
    let mut rng = thread_rng();
    random_in_range(&mut rng, low, high)
}

/// A division problem together with its answer.
#[derive(Clone, Copy, Debug, PartialEq, Eq)]
pub struct Problem {
    /// The number that is divided.
    pub dividend: u32,
    /// The number it is divided by.
    pub divisor: u32,
    /// The expected quotient.
    pub quotient: u32,
    /// The expected remainder.
    pub remainder: u32,
}

impl Problem {
    /// The problems that `Problem::new(d)` can hand out.
    pub open spec fn valid_for(self, d: Difficulty) -> bool {
        match d {
            Difficulty::Easy => {
                &&& 2 <= self.divisor <= 9
                &&& 2 <= self.quotient <= 9
                &&& self.dividend == self.divisor * self.quotient
                &&& self.remainder == 0
            },
            Difficulty::Hard => {
                &&& 100 <= self.dividend <= 999
                &&& 10 <= self.divisor <= 99
                &&& self.quotient == self.dividend / self.divisor
                &&& self.remainder == self.dividend % self.divisor
            },
        }
    }

    /// The answer is the quotient and remainder of dividing `dividend` by `divisor`.
    pub open spec fn division_holds(self) -> bool {
        &&& self.divisor > 0
        &&& self.dividend == self.divisor * self.quotient + self.remainder
        &&& self.remainder < self.divisor
    }

    /// The first line of the written problem: blanks under the divisor, then a bar
    /// one longer than the dividend.
    pub open spec fn question_top(self) -> Seq<char> {
        repeat_char(' ', decimal(self.divisor as nat).len()) + repeat_char(
            '▁',
            decimal(self.dividend as nat).len() + 1,
        )
    }

    /// The second line of the written problem: `divisor)dividend`.
    pub open spec fn question_bottom(self) -> Seq<char> {
        decimal(self.divisor as nat) + seq![')'] + decimal(self.dividend as nat)
    }

    /// The written problem, as two lines.
    pub open spec fn question(self) -> Seq<char> {
        self.question_top() + seq!['\n'] + self.question_bottom()
    }

    /// The Easy problem whose divisor and quotient were drawn as given.
    pub fn from_easy_draws(divisor: u32, quotient: u32) -> (p: Problem)
        requires
            divisor * quotient <= u32::MAX,
        ensures
            p == (Problem { dividend: (divisor * quotient) as u32, divisor, quotient, remainder: 0 }),
    {
        Problem { dividend: divisor * quotient, divisor, quotient, remainder: 0 }
    }

    /// The Hard problem whose dividend and divisor were drawn as given.
    pub fn from_hard_draws(dividend: u32, divisor: u32) -> (p: Problem)
        requires
            divisor > 0,
        ensures
            p == (Problem {
                dividend,
                divisor,
                quotient: dividend / divisor,
                remainder: dividend % divisor,
            }),
    {
        Problem { dividend, divisor, quotient: dividend / divisor, remainder: dividend % divisor }
    }

    /// The problem of the given difficulty built from two calls of `draw`,
    /// where `draw(low, high)` yields a value in `low..=high`: at Easy the
    /// divisor and then the quotient are drawn from `2..=9`; at Hard the
    /// dividend from `100..=999` and then the divisor from `10..=99`.
    pub fn generate<F: Fn(u32, u32) -> u32>(difficulty: Difficulty, draw: F) -> (p: Problem)
        requires
            forall|low: u32, high: u32| low <= high ==> #[trigger] draw.requires((low, high)),
            forall|low: u32, high: u32, r: u32|
                #[trigger] draw.ensures((low, high), r) ==> low <= r <= high,
        ensures
            match difficulty {
                Difficulty::Easy => {
                    &&& draw.ensures((2u32, 9u32), p.divisor)
                    &&& draw.ensures((2u32, 9u32), p.quotient)
                    &&& p.dividend == p.divisor * p.quotient
                    &&& p.remainder == 0
                },
                Difficulty::Hard => {
                    &&& draw.ensures((100u32, 999u32), p.dividend)
                    &&& draw.ensures((10u32, 99u32), p.divisor)
                    &&& p.quotient == p.dividend / p.divisor
                    &&& p.remainder == p.dividend % p.divisor
                },
            },
            p.valid_for(difficulty),
    {
        match difficulty {
            Difficulty::Easy => {
                let divisor = draw(2, 9);
                let quotient = draw(2, 9);
                assert(divisor * quotient <= 81) by (nonlinear_arith)
                    requires
                        divisor <= 9,
                        quotient <= 9,
                ;
                Problem::from_easy_draws(divisor, quotient)
            },
            Difficulty::Hard => {
                let dividend = draw(100, 999);
                let divisor = draw(10, 99);
                Problem::from_hard_draws(dividend, divisor)
            },
        }
    }

    /// A fresh random problem of the given difficulty: `generate` with draws
    /// from the thread-local generator of `rand`.
    pub fn new(difficulty: Difficulty) -> (p: Problem)
        ensures
            p.valid_for(difficulty),
    {
        Problem::generate(difficulty, draw_random)
    }

    /// The first line of the written problem.
    pub(crate) fn question_top_line(&self) -> (r: String)
        ensures
            r@ == self.question_top(),
    {
        let mut dividend_str = String::new();
        push_decimal(&mut dividend_str, self.dividend as u64);
        let mut divisor_str = String::new();
        push_decimal(&mut divisor_str, self.divisor as u64);
        let dividend_len = dividend_str.as_str().unicode_len();
        let divisor_len = divisor_str.as_str().unicode_len();
        let mut top = String::new();
        push_repeated(&mut top, ' ', divisor_len as u64);
        push_repeated(&mut top, '▁', dividend_len as u64);
        string_push(&mut top, '▁');
        assert(top@ =~= self.question_top());
        top
    }

    /// The second line of the written problem.
    pub(crate) fn question_bottom_line(&self) -> (r: String)
        ensures
            r@ == self.question_bottom(),
    {
        let mut bottom = String::new();
        push_decimal(&mut bottom, self.divisor as u64);
        string_push(&mut bottom, ')');
        push_decimal(&mut bottom, self.dividend as u64);
        assert(bottom@ =~= self.question_bottom());
        bottom
    }

    /// The problem written out for the screen, e.g. `" ▁▁▁\n7)56"` for 56 ÷ 7.
    pub fn question_text(&self) -> (r: String)
        ensures
            r@ == self.question(),
    {
        let mut text = self.question_top_line();
        string_push(&mut text, '\n');
        let bottom = self.question_bottom_line();
        text.append(bottom.as_str());
        assert(text@ =~= self.question());
        text
    }
}

/// The written problem is two lines, split by its one line break: the first
/// is `question_top`, the second `question_bottom`.
pub proof fn lemma_question_is_two_lines(p: Problem)
    ensures
        p.question() == p.question_top() + seq!['\n'] + p.question_bottom(),
        forall|i: int| 0 <= i < p.question_top().len() ==> #[trigger] p.question_top()[i] != '\n',
        forall|i: int|
            0 <= i < p.question_bottom().len() ==> #[trigger] p.question_bottom()[i] != '\n',
{
    crate::text::lemma_decimal_digits(p.divisor as nat);
    crate::text::lemma_decimal_digits(p.dividend as nat);
    let dv = decimal(p.divisor as nat);
    let dd = decimal(p.dividend as nat);
    assert forall|i: int| 0 <= i < p.question_bottom().len() implies #[trigger] p.question_bottom()[i]
        != '\n' by {
        if i < dv.len() {
            assert(p.question_bottom()[i] == dv[i]);
        } else if i > dv.len() {
            assert(p.question_bottom()[i] == dd[i - dv.len() - 1]);
        }
    }
}

/// Every problem that `Problem::new(d)` hands out is a true division: the
/// remainder is below the divisor and divisor times quotient plus remainder
/// gives the dividend; at Easy the remainder is zero.
pub proof fn lemma_generated_problem_is_division(p: Problem, d: Difficulty)
    requires
        p.valid_for(d),
    ensures
        p.division_holds(),
        d is Easy ==> p.remainder == 0,
        d is Hard ==> p.dividend >= 100,
{
    match d {
        Difficulty::Easy => {},
        Difficulty::Hard => {
            assert(p.dividend == p.divisor * (p.dividend / p.divisor) + p.dividend % p.divisor)
                by (nonlinear_arith)
                requires
                    p.divisor > 0,
            ;
        },
    }
}

} // verus!
