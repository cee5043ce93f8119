use crate::division::{Difficulty, Problem};
use crate::quiz::{count_correct, App, Attempt, InputField, Mode, QuizScreen};
use crate::text::{decimal, push_decimal};
use vstd::prelude::*;

verus! {

/// How a line is coloured on screen.
#[derive(Clone, Copy, Debug, PartialEq, Eq)]
pub enum Tone {
    /// Default colour.
    Plain,
    /// Green: a right answer.
    Good,
    /// Red: a wrong answer.
    Bad,
}

/// One line of text with its colour.
pub struct StyledLine {
    pub text: String,
    pub tone: Tone,
}

/// A line as a pair of its characters and its colour.
pub open spec fn line_view(l: StyledLine) -> (Seq<char>, Tone) {
    (l.text@, l.tone)
}

/// A line of default colour.
pub open spec fn plain(t: Seq<char>) -> (Seq<char>, Tone) {
    (t, Tone::Plain)
}

/// What an answer box shows: its contents, or `_` when empty.
pub open spec fn shown_or_blank(s: Seq<char>) -> Seq<char> {
    if s.len() == 0 {
        "_"@
    } else {
        s
    }
}

/// The first part of a history line: the problem with its answer, and
/// `, R:` and the remainder when the remainder is not zero.
pub open spec fn solved_problem_text(p: Problem) -> Seq<char> {
    decimal(p.dividend as nat) + " ÷ "@ + decimal(p.divisor as nat) + " = "@ + decimal(
        p.quotient as nat,
    ) + if p.remainder == 0 {
        Seq::<char>::empty()
    } else {
        ", R:"@ + decimal(p.remainder as nat)
    }
}

/// The user's answer as a history line shows it.
pub open spec fn user_answer_text(a: Attempt) -> Seq<char> {
    if a.problem.remainder == 0 {
        decimal(a.user_quotient as nat)
    } else {
        decimal(a.user_quotient as nat) + " R:"@ + decimal(a.user_remainder as nat)
    }
}

/// The history line of an attempt: a check mark and the solved problem when
/// right; a cross, the solved problem and the user's answer when wrong.
pub open spec fn history_text(a: Attempt) -> Seq<char> {
    if a.correct() {
        "✓"@ + " "@ + solved_problem_text(a.problem)
    } else {
        "✗"@ + " "@ + solved_problem_text(a.problem) + " (Your answer: "@ + user_answer_text(a)
            + ")"@
    }
}

/// Green for a right attempt, red for a wrong one.
pub open spec fn verdict_tone(correct: bool) -> Tone {
    if correct {
        Tone::Good
    } else {
        Tone::Bad
    }
}

/// The lines of the setup screen.
pub open spec fn setup_lines() -> Seq<(Seq<char>, Tone)> {
    seq![
        plain(""@),
        plain(""@),
        plain("Select Difficulty"@),
        plain(""@),
        plain("1. Easy Mode (no remainder)"@),
        plain("2. Hard Mode (with remainder)"@),
        plain(""@),
        plain("Press 1 or 2 to start"@),
    ]
}

impl App {
    /// The statistics line.
    pub open spec fn stats_spec(&self) -> Seq<char> {
        let total = self.history@.len();
        let correct = count_correct(self.history@);
        if total == 0 {
            "No attempts yet"@
        } else {
            "Accuracy: "@ + decimal((correct * 100) / total) + "% ("@ + decimal(correct) + " / "@
                + decimal(total) + ")"@
        }
    }

    /// The line that shows what has been typed so far.
    pub open spec fn answer_prompt(&self) -> Seq<char> {
        match self.difficulty {
            Difficulty::Easy => "Your Answer: "@ + shown_or_blank(self.input_quotient@),
            Difficulty::Hard => match self.focus {
                InputField::Quotient => "Your Answer for Quotient: "@ + shown_or_blank(
                    self.input_quotient@,
                ),
                InputField::Remainder => "Your Answer for Remainder: "@ + shown_or_blank(
                    self.input_remainder@,
                ),
            },
        }
    }

    /// The hint under the prompt.
    pub open spec fn hint(&self) -> Seq<char> {
        match self.difficulty {
            Difficulty::Easy => "Press Enter to submit"@,
            Difficulty::Hard => match self.focus {
                InputField::Quotient => "Enter quotient, then press Enter"@,
                InputField::Remainder => "Enter remainder, then press Enter"@,
            },
        }
    }

    /// The line that repeats the submitted answer.
    pub open spec fn your_answer(&self) -> Seq<char> {
        match self.difficulty {
            Difficulty::Easy => "Your answer: "@ + self.input_quotient@,
            Difficulty::Hard => "Your answer: Q:"@ + self.input_quotient@ + ", R:"@
                + self.input_remainder@,
        }
    }

    /// The line that says whether the answer was right.
    pub open spec fn verdict(&self, correct: bool) -> Seq<char> {
        if correct {
            "Correct!"@
        } else {
            match self.difficulty {
                Difficulty::Easy => "Wrong! The correct answer is "@ + decimal(
                    self.problem.quotient as nat,
                ),
                Difficulty::Hard => "Wrong! The correct answer is "@ + decimal(
                    self.problem.quotient as nat,
                ) + " R "@ + decimal(self.problem.remainder as nat),
            }
        }
    }

    /// The lines of the quiz panel.
    pub open spec fn quiz_spec(&self) -> Seq<(Seq<char>, Tone)> {
        match self.screen {
            QuizScreen::Setup => setup_lines(),
            QuizScreen::Playing { mode: Mode::Asking } => seq![
                plain(self.problem.question_top()),
                plain(self.problem.question_bottom()),
                plain(""@),
                plain(self.answer_prompt()),
                plain(""@),
                plain(self.hint()),
            ],
            QuizScreen::Playing { mode: Mode::ShowingResult { correct } } => seq![
                plain(self.problem.question_top()),
                plain(self.problem.question_bottom()),
                plain(""@),
                plain(self.your_answer()),
                plain(""@),
                (self.verdict(correct), verdict_tone(correct)),
                plain(""@),
                plain("Press Enter for next problem"@),
            ],
        }
    }
}

/// While asking, the prompt line of the quiz panel shows the focused box's
/// own contents after its label (`_` when that box is empty): at Easy the
/// quotient after "Your Answer: "; at Hard the quotient or the remainder,
/// whichever has the focus, after its label.
pub proof fn lemma_prompt_shows_focused_box(app: App)
    requires
        app.screen == (QuizScreen::Playing { mode: Mode::Asking }),
    ensures
        app.quiz_spec().len() == 6,
        app.quiz_spec()[3].1 == Tone::Plain,
        app.difficulty is Easy ==> app.quiz_spec()[3].0 == "Your Answer: "@ + (
        if app.input_quotient@.len() == 0 {
            "_"@
        } else {
            app.input_quotient@
        }),
        app.difficulty is Hard && app.focus is Quotient ==> app.quiz_spec()[3].0
            == "Your Answer for Quotient: "@ + (if app.input_quotient@.len() == 0 {
            "_"@
        } else {
            app.input_quotient@
        }),
        app.difficulty is Hard && app.focus is Remainder ==> app.quiz_spec()[3].0
            == "Your Answer for Remainder: "@ + (if app.input_remainder@.len() == 0 {
            "_"@
        } else {
            app.input_remainder@
        }),
{
}

/// While asking, the quiz panel shows the problem's two lines, a blank line,
/// the prompt, a blank line and the hint for the box that takes the next
/// digits.
pub proof fn lemma_asking_panel_layout(app: App)
    requires
        app.screen == (QuizScreen::Playing { mode: Mode::Asking }),
    ensures
        app.quiz_spec()[0] == (app.problem.question_top(), Tone::Plain),
        app.quiz_spec()[1] == (app.problem.question_bottom(), Tone::Plain),
        app.quiz_spec()[2] == (Seq::<char>::empty(), Tone::Plain),
        app.quiz_spec()[4] == (Seq::<char>::empty(), Tone::Plain),
        app.difficulty is Easy ==> app.quiz_spec()[5].0 == "Press Enter to submit"@,
        app.difficulty is Hard && app.focus is Quotient ==> app.quiz_spec()[5].0
            == "Enter quotient, then press Enter"@,
        app.difficulty is Hard && app.focus is Remainder ==> app.quiz_spec()[5].0
            == "Enter remainder, then press Enter"@,
{
    reveal_strlit("");
}

/// After a submission the quiz panel says "Correct!" in green exactly when
/// the recorded answer matched, and otherwise, in red, gives the problem's
/// quotient (and at Hard its remainder) as the right answer.
pub proof fn lemma_result_panel_verdict(app: App, correct: bool)
    requires
        app.screen == (QuizScreen::Playing { mode: Mode::ShowingResult { correct } }),
    ensures
        app.quiz_spec().len() == 8,
        correct ==> app.quiz_spec()[5] == ("Correct!"@, Tone::Good),
        !correct ==> app.quiz_spec()[5].1 == Tone::Bad,
        !correct && app.difficulty is Easy ==> app.quiz_spec()[5].0
            == "Wrong! The correct answer is "@ + decimal(app.problem.quotient as nat),
        !correct && app.difficulty is Hard ==> app.quiz_spec()[5].0
            == "Wrong! The correct answer is "@ + decimal(app.problem.quotient as nat) + " R "@
            + decimal(app.problem.remainder as nat),
        app.difficulty is Easy ==> app.quiz_spec()[3].0 == "Your answer: "@ + app.input_quotient@,
        app.difficulty is Hard ==> app.quiz_spec()[3].0 == "Your answer: Q:"@
            + app.input_quotient@ + ", R:"@ + app.input_remainder@,
        app.quiz_spec()[7].0 == "Press Enter for next problem"@,
{
}

/// A history line is green and starts with a check mark exactly when both
/// numbers of the attempt match the problem's answer, and red with a cross
/// otherwise; a wrong line ends with the user's answer in brackets.
pub proof fn lemma_history_line_marks_full_matches(a: Attempt)
    ensures
        (a.user_quotient == a.problem.quotient && a.user_remainder == a.problem.remainder)
            ==> history_text(a) == "✓ "@ + solved_problem_text(a.problem) && verdict_tone(
            a.correct(),
        ) == Tone::Good,
        !(a.user_quotient == a.problem.quotient && a.user_remainder == a.problem.remainder)
            ==> history_text(a) == "✗ "@ + solved_problem_text(a.problem) + " (Your answer: "@
            + user_answer_text(a) + ")"@ && verdict_tone(a.correct()) == Tone::Bad,
{
    reveal_strlit("✓");
    reveal_strlit("✗");
    reveal_strlit(" ");
    reveal_strlit("✓ ");
    reveal_strlit("✗ ");
    assert("✓"@ + " "@ =~= "✓ "@);
    assert("✗"@ + " "@ =~= "✗ "@);
}

/// The statistics line, once something was answered, reads
/// "Accuracy: P% (c / t)" where c counts the attempts whose quotient and
/// remainder both match, t counts all attempts, and P is the largest whole
/// percentage with P·t ≤ 100·c.
pub proof fn lemma_stats_line_counts(app: App)
    requires
        app.history@.len() > 0,
    ensures
        ({
            let t = app.history@.len();
            let c = app.history@.filter(
                |a: Attempt| a.user_quotient == a.problem.quotient && a.user_remainder
                    == a.problem.remainder,
            ).len();
            exists|pct: nat|
                #![trigger decimal(pct)]
                pct * t <= 100 * c && 100 * c < (pct + 1) * t && app.stats_spec() == "Accuracy: "@
                    + decimal(pct) + "% ("@ + decimal(c) + " / "@ + decimal(t) + ")"@
        }),
{
    crate::quiz::lemma_count_correct_counts_full_matches(app.history@);
    let t = app.history@.len();
    let c = count_correct(app.history@);
    let pct = (c * 100) / t;
    assert(pct * t <= 100 * c && 100 * c < (pct + 1) * t) by (nonlinear_arith)
        requires
            pct == (c * 100) / t,
            t > 0,
    ;
    assert(app.stats_spec() == "Accuracy: "@ + decimal(pct) + "% ("@ + decimal(c) + " / "@
        + decimal(t) + ")"@);
}

/// What an answer box shows: `buf`, or `_` when it is empty.
pub fn display_with_focus(buf: &str, focused: bool) -> (r: String)
    ensures
        r@ == shown_or_blank(buf@),
{
    if buf.is_empty() {
        String::from_str("_")
    } else {
        buf.to_owned()
    }
}

/// A line of default colour holding `text`.
fn plain_line(text: String) -> (l: StyledLine)
    ensures
        line_view(l) == plain(text@),
{
    StyledLine { text, tone: Tone::Plain }
}

/// A line of default colour holding a copy of `text`.
fn plain_str(text: &str) -> (l: StyledLine)
    ensures
        line_view(l) == plain(text@),
{
    StyledLine { text: String::from_str(text), tone: Tone::Plain }
}

impl Attempt {
    /// The history line of this attempt.
    pub fn history_line(&self) -> (l: StyledLine)
        ensures
            line_view(l) == (history_text(*self), verdict_tone(self.correct())),
    {
        let correct = self.is_correct();
        let mut problem_str = String::new();
        push_decimal(&mut problem_str, self.problem.dividend as u64);
        problem_str.append(" ÷ ");
        push_decimal(&mut problem_str, self.problem.divisor as u64);
        problem_str.append(" = ");
        push_decimal(&mut problem_str, self.problem.quotient as u64);
        if self.problem.remainder != 0 {
            problem_str.append(", R:");
            push_decimal(&mut problem_str, self.problem.remainder as u64);
        }
        assert(problem_str@ =~= solved_problem_text(self.problem));
        let mut text = String::new();
        if correct {
            text.append("✓");
            text.append(" ");
            text.append(problem_str.as_str());
            assert(text@ =~= history_text(*self));
            StyledLine { text, tone: Tone::Good }
        } else {
            let mut user_input = String::new();
            push_decimal(&mut user_input, self.user_quotient as u64);
            if self.problem.remainder != 0 {
                user_input.append(" R:");
                push_decimal(&mut user_input, self.user_remainder as u64);
            }
            assert(user_input@ =~= user_answer_text(*self));
            text.append("✗");
            text.append(" ");
            text.append(problem_str.as_str());
            text.append(" (Your answer: ");
            text.append(user_input.as_str());
            text.append(")");
            assert(text@ =~= history_text(*self));
            StyledLine { text, tone: Tone::Bad }
        }
    }
}

impl App {
    /// The statistics line: the accuracy with the counts, or a note that
    /// nothing was answered yet.
    pub fn stats_text(&self) -> (r: String)
        requires
            count_correct(self.history@) * 100 <= u32::MAX,
            self.history@.len() <= u32::MAX,
        ensures
            r@ == self.stats_spec(),
    {
        let total = self.history.len();
        let correct = self.correct_count();
        match self.accuracy_percent() {
            None => String::from_str("No attempts yet"),
            Some(pct) => {
                let mut s = String::from_str("Accuracy: ");
                push_decimal(&mut s, pct as u64);
                s.append("% (");
                push_decimal(&mut s, correct as u64);
                s.append(" / ");
                push_decimal(&mut s, total as u64);
                s.append(")");
                assert(s@ =~= self.stats_spec());
                s
            },
        }
    }

    /// The prompt line while asking.
    fn answer_prompt_line(&self) -> (l: StyledLine)
        ensures
            line_view(l) == plain(self.answer_prompt()),
    {
        let mut text;
        match self.difficulty {
            Difficulty::Easy => {
                text = String::from_str("Your Answer: ");
                let shown = display_with_focus(self.input_quotient.as_str(), true);
                text.append(shown.as_str());
            },
            Difficulty::Hard => {
                let q_display = display_with_focus(
                    self.input_quotient.as_str(),
                    matches!(self.focus, InputField::Quotient),
                );
                let r_display = display_with_focus(
                    self.input_remainder.as_str(),
                    matches!(self.focus, InputField::Remainder),
                );
                match self.focus {
                    InputField::Quotient => {
                        text = String::from_str("Your Answer for Quotient: ");
                        text.append(q_display.as_str());
                    },
                    InputField::Remainder => {
                        text = String::from_str("Your Answer for Remainder: ");
                        text.append(r_display.as_str());
                    },
                }
            },
        }
        assert(text@ =~= self.answer_prompt());
        plain_line(text)
    }

    /// The hint line while asking.
    fn hint_line(&self) -> (l: StyledLine)
        ensures
            line_view(l) == plain(self.hint()),
    {
        let hint = match self.difficulty {
            Difficulty::Easy => "Press Enter to submit",
            Difficulty::Hard => match self.focus {
                InputField::Quotient => "Enter quotient, then press Enter",
                InputField::Remainder => "Enter remainder, then press Enter",
            },
        };
        plain_str(hint)
    }

    /// The line repeating the submitted answer.
    fn your_answer_line(&self) -> (l: StyledLine)
        ensures
            line_view(l) == plain(self.your_answer()),
    {
        let mut text = String::new();
        match self.difficulty {
            Difficulty::Easy => {
                text.append("Your answer: ");
                text.append(self.input_quotient.as_str());
            },
            Difficulty::Hard => {
                text.append("Your answer: Q:");
                text.append(self.input_quotient.as_str());
                text.append(", R:");
                text.append(self.input_remainder.as_str());
            },
        }
        assert(text@ =~= self.your_answer());
        plain_line(text)
    }

    /// The line saying whether the answer was right.
    fn verdict_line(&self, correct: bool) -> (l: StyledLine)
        ensures
            line_view(l) == (self.verdict(correct), verdict_tone(correct)),
    {
        if correct {
            StyledLine { text: String::from_str("Correct!"), tone: Tone::Good }
        } else {
            let mut text = String::from_str("Wrong! The correct answer is ");
            push_decimal(&mut text, self.problem.quotient as u64);
            match self.difficulty {
                Difficulty::Easy => {},
                Difficulty::Hard => {
                    text.append(" R ");
                    push_decimal(&mut text, self.problem.remainder as u64);
                },
            }
            assert(text@ =~= self.verdict(correct));
            StyledLine { text, tone: Tone::Bad }
        }
    }

    /// The lines of the quiz panel for the current screen.
    pub fn quiz_lines(&self) -> (r: Vec<StyledLine>)
        ensures
            r@.map_values(|l: StyledLine| line_view(l)) == self.quiz_spec(),
    {
        let mut v: Vec<StyledLine> = Vec::new();
        match self.screen {
            QuizScreen::Setup => {
                v.push(plain_str(""));
                v.push(plain_str(""));
                v.push(plain_str("Select Difficulty"));
                v.push(plain_str(""));
                v.push(plain_str("1. Easy Mode (no remainder)"));
                v.push(plain_str("2. Hard Mode (with remainder)"));
                v.push(plain_str(""));
                v.push(plain_str("Press 1 or 2 to start"));
            },
            QuizScreen::Playing { mode } => {
                v.push(plain_line(self.problem.question_top_line()));
                v.push(plain_line(self.problem.question_bottom_line()));
                v.push(plain_str(""));
                match mode {
                    Mode::Asking => {
                        v.push(self.answer_prompt_line());
                        v.push(plain_str(""));
                        v.push(self.hint_line());
                    },
                    Mode::ShowingResult { correct } => {
                        v.push(self.your_answer_line());
                        v.push(plain_str(""));
                        v.push(self.verdict_line(correct));
                        v.push(plain_str(""));
                        v.push(plain_str("Press Enter for next problem"));
                    },
                }
            },
        }
        assert(v@.map_values(|l: StyledLine| line_view(l)) =~= self.quiz_spec());
        v
    }

    /// The lines of the history panel, one per attempt, oldest first.
    pub fn history_lines(&self) -> (r: Vec<StyledLine>)
        ensures
            r@.len() == self.history@.len(),
            forall|i: int|
                0 <= i < r@.len() ==> line_view(#[trigger] r@[i]) == (
                    history_text(self.history@[i]),
                    verdict_tone(self.history@[i].correct()),
                ),
    {
        let mut v: Vec<StyledLine> = Vec::new();
        let mut i: usize = 0;
        while i < self.history.len()
            invariant
                i <= self.history@.len(),
                v@.len() == i,
                forall|j: int|
                    0 <= j < i ==> line_view(#[trigger] v@[j]) == (
                        history_text(self.history@[j]),
                        verdict_tone(self.history@[j].correct()),
                    ),
            decreases self.history@.len() - i,
        {
            v.push(self.history[i].history_line());
            i = i + 1;
        }
        v
    }
}

} // verus!
