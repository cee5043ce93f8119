use crate::division::{Difficulty, Problem};
use crate::text::{decimal, is_digit, lemma_parse_decimal, parse_u32, parse_u32_spec, string_pop, string_push};
use vstd::prelude::*;

verus! {

/// Which answer box the typed digits go to.
#[derive(Clone, Copy, Debug, PartialEq, Eq)]
pub enum InputField {
    Quotient,
    Remainder,
}

/// What the playing screen shows.
#[derive(Clone, Copy, Debug, PartialEq, Eq)]
pub enum Mode {
    /// Waiting for the answer.
    Asking,
    /// Showing whether the submitted answer was right.
    ShowingResult { correct: bool },
}

/// The screen the quiz is on.
#[derive(Clone, Copy, Debug, PartialEq, Eq)]
pub enum QuizScreen {
    /// Choosing the difficulty.
    Setup,
    /// Solving problems.
    Playing { mode: Mode },
}

/// One submitted answer, with the problem it answered.
#[derive(Clone, Copy, Debug, PartialEq, Eq)]
pub struct Attempt {
    pub problem: Problem,
    pub user_quotient: u32,
    pub user_remainder: u32,
}

/// A key as the quiz sees it.
#[derive(Clone, Copy, Debug, PartialEq, Eq)]
pub enum Key {
    Char(char),
    Backspace,
    Enter,
    /// Any other key.
    Other,
}

/// Whether the quiz goes on after a key.
#[derive(Clone, Copy, Debug, PartialEq, Eq)]
pub enum Step {
    Continue,
    Quit,
}

/// The value an answer box counts as: its number, or `u32::MAX` when it does
/// not parse as a `u32`.
pub open spec fn answer_value(s: Seq<char>) -> u32 {
    match parse_u32_spec(s) {
        Some(v) => v,
        None => u32::MAX,
    }
}

/// The length of `s` in bytes, encoded as UTF-8.
pub open spec fn byte_len(s: Seq<char>) -> nat {
    vstd::utf8::encode_utf8(s).len()
}

/// `s` with `c` added, unless `s` already takes 3 bytes or more.
pub open spec fn typed(s: Seq<char>, c: char) -> Seq<char> {
    if byte_len(s) < 3 {
        s.push(c)
    } else {
        s
    }
}

/// `s` without its last character (`s` itself when empty).
pub open spec fn erased(s: Seq<char>) -> Seq<char> {
    if s.len() == 0 {
        s
    } else {
        s.drop_last()
    }
}

/// At most 3 ASCII digits.
pub open spec fn digit_box(s: Seq<char>) -> bool {
    &&& s.len() <= 3
    &&& forall|i: int| 0 <= i < s.len() ==> is_digit(#[trigger] s[i])
}

/// Typing a digit into a box of digits keeps it a box of at most 3 digits.
pub proof fn lemma_digit_box_typed(s: Seq<char>, c: char)
    ensures
        digit_box(s) && is_digit(c) ==> digit_box(typed(s, c)),
        digit_box(s) ==> digit_box(erased(s)),
{
    if digit_box(s) {
        assert(vstd::utf8::is_ascii_chars(s));
        vstd::utf8::is_ascii_chars_encode_utf8(s);
        if is_digit(c) {
            assert forall|i: int| 0 <= i < typed(s, c).len() implies is_digit(
                #[trigger] typed(s, c)[i],
            ) by {
                if i < s.len() {
                    assert(typed(s, c)[i] == s[i]);
                }
            }
        }
        assert forall|i: int| 0 <= i < erased(s).len() implies is_digit(#[trigger] erased(s)[i]) by {
            assert(erased(s)[i] == s[i]);
        }
    }
}

/// How many of the attempts were right.
pub open spec fn count_correct(h: Seq<Attempt>) -> nat
    decreases h.len(),
{
    if h.len() == 0 {
        0
    } else {
        count_correct(h.drop_last()) + if h.last().correct() {
            1nat
        } else {
            0nat
        }
    }
}

/// An attempt as the quiz records it: an Easy problem answered with remainder 0,
/// or a Hard problem.
pub open spec fn recorded_ok(a: Attempt) -> bool {
    ||| a.problem.valid_for(Difficulty::Easy) && a.user_remainder == 0
    ||| a.problem.valid_for(Difficulty::Hard)
}

impl Attempt {
    /// Both parts of the answer match the problem's.
    pub open spec fn correct(self) -> bool {
        self.user_quotient == self.problem.quotient && self.user_remainder == self.problem.remainder
    }

    /// Whether the attempt was right.
    pub fn is_correct(&self) -> (r: bool)
        ensures
            r == self.correct(),
    {
        self.user_quotient == self.problem.quotient && self.user_remainder == self.problem.remainder
    }
}

/// The state of the quiz.
pub struct App {
    pub problem: Problem,
    pub input_quotient: String,
    pub input_remainder: String,
    pub focus: InputField,
    pub history: Vec<Attempt>,
    pub difficulty: Difficulty,
    pub screen: QuizScreen,
}

impl App {
    /// What every operation keeps: the problem fits the difficulty; at Easy
    /// only the quotient box is used; every recorded attempt is sound.
    pub open spec fn wf(&self) -> bool {
        &&& self.problem.valid_for(self.difficulty)
        &&& self.difficulty is Easy ==> self.focus is Quotient && self.input_remainder@.len() == 0
        &&& forall|i: int| 0 <= i < self.history@.len() ==> recorded_ok(#[trigger] self.history@[i])
    }

    /// Each answer box holds at most 3 ASCII digits.
    pub open spec fn boxes_ok(&self) -> bool {
        digit_box(self.input_quotient@) && digit_box(self.input_remainder@)
    }

    /// Both boxes fit, in bytes, in a `usize` (as every string in memory does).
    pub open spec fn boxes_fit(&self) -> bool {
        byte_len(self.input_quotient@) <= usize::MAX && byte_len(self.input_remainder@) <= usize::MAX
    }

    /// `other` holds the same state as `self`.
    pub open spec fn same(&self, other: &App) -> bool {
        &&& other.problem == self.problem
        &&& other.input_quotient@ == self.input_quotient@
        &&& other.input_remainder@ == self.input_remainder@
        &&& other.focus == self.focus
        &&& other.history@ == self.history@
        &&& other.difficulty == self.difficulty
        &&& other.screen == self.screen
    }

    /// The contents of the box that has the focus.
    pub open spec fn focused_input(&self) -> Seq<char> {
        match self.focus {
            InputField::Quotient => self.input_quotient@,
            InputField::Remainder => self.input_remainder@,
        }
    }

    /// The attempt that submitting now records.
    pub open spec fn pending_attempt(&self) -> Attempt {
        Attempt {
            problem: self.problem,
            user_quotient: answer_value(self.input_quotient@),
            user_remainder: if self.difficulty is Hard {
                answer_value(self.input_remainder@)
            } else {
                0
            },
        }
    }

    /// Whether submitting now is taken: the quotient is filled in, and the
    /// remainder too where the difficulty asks for one.
    pub open spec fn can_submit(&self) -> bool {
        &&& self.input_quotient@.len() > 0
        &&& (self.difficulty is Hard ==> self.input_remainder@.len() > 0)
    }

    /// `new` is `self` after typing `c`.
    pub open spec fn typed_into(&self, new: &App, c: char) -> bool {
        &&& new.problem == self.problem
        &&& new.focus == self.focus
        &&& new.history@ == self.history@
        &&& new.difficulty == self.difficulty
        &&& new.screen == self.screen
        &&& match self.focus {
            InputField::Quotient => {
                &&& new.input_quotient@ == typed(self.input_quotient@, c)
                &&& new.input_remainder@ == self.input_remainder@
            },
            InputField::Remainder => {
                &&& new.input_quotient@ == self.input_quotient@
                &&& new.input_remainder@ == typed(self.input_remainder@, c)
            },
        }
    }

    /// `new` is `self` after erasing a character.
    pub open spec fn erased_from(&self, new: &App) -> bool {
        &&& new.problem == self.problem
        &&& new.focus == self.focus
        &&& new.history@ == self.history@
        &&& new.difficulty == self.difficulty
        &&& new.screen == self.screen
        &&& match self.focus {
            InputField::Quotient => {
                &&& new.input_quotient@ == erased(self.input_quotient@)
                &&& new.input_remainder@ == self.input_remainder@
            },
            InputField::Remainder => {
                &&& new.input_quotient@ == self.input_quotient@
                &&& new.input_remainder@ == erased(self.input_remainder@)
            },
        }
    }

    /// `new` is `self` after submitting: when it can be taken, the pending
    /// attempt is recorded and its result shown; else nothing changes.
    pub open spec fn submitted(&self, new: &App) -> bool {
        if self.can_submit() {
            &&& new.problem == self.problem
            &&& new.input_quotient@ == self.input_quotient@
            &&& new.input_remainder@ == self.input_remainder@
            &&& new.focus == self.focus
            &&& new.history@ == self.history@.push(self.pending_attempt())
            &&& new.difficulty == self.difficulty
            &&& new.screen == (QuizScreen::Playing {
                mode: Mode::ShowingResult { correct: self.pending_attempt().correct() },
            })
        } else {
            self.same(new)
        }
    }

    /// `new` is `self` after Enter while asking: at Hard a filled quotient
    /// moves the focus to the remainder; otherwise the answer is submitted.
    pub open spec fn confirmed(&self, new: &App) -> bool {
        match self.difficulty {
            Difficulty::Easy => self.submitted(new),
            Difficulty::Hard => match self.focus {
                InputField::Quotient => if self.input_quotient@.len() > 0 {
                    &&& new.problem == self.problem
                    &&& new.input_quotient@ == self.input_quotient@
                    &&& new.input_remainder@ == self.input_remainder@
                    &&& new.focus == InputField::Remainder
                    &&& new.history@ == self.history@
                    &&& new.difficulty == self.difficulty
                    &&& new.screen == self.screen
                } else {
                    self.same(new)
                },
                InputField::Remainder => self.submitted(new),
            },
        }
    }

    /// `new` is `self` with a fresh problem of difficulty `d`, empty boxes,
    /// the focus on the quotient, asking; the history is kept.
    pub open spec fn restarted(&self, new: &App, d: Difficulty) -> bool {
        &&& new.difficulty == d
        &&& new.problem.valid_for(d)
        &&& new.input_quotient@.len() == 0
        &&& new.input_remainder@.len() == 0
        &&& new.focus == InputField::Quotient
        &&& new.history@ == self.history@
        &&& new.screen == (QuizScreen::Playing { mode: Mode::Asking })
    }

    /// A new quiz: Easy, on the setup screen, with no attempts.
    pub fn new() -> (app: App)
        ensures
            app.difficulty == Difficulty::Easy,
            app.problem.valid_for(Difficulty::Easy),
            app.input_quotient@.len() == 0,
            app.input_remainder@.len() == 0,
            app.focus == InputField::Quotient,
            app.history@.len() == 0,
            app.screen == QuizScreen::Setup,
            app.wf(),
            app.boxes_ok(),
    {
        let difficulty = Difficulty::Easy;
        App {
            problem: Problem::new(difficulty),
            input_quotient: String::new(),
            input_remainder: String::new(),
            focus: InputField::Quotient,
            history: Vec::new(),
            difficulty,
            screen: QuizScreen::Setup,
        }
    }

    /// Types `c` into the focused box, unless it already holds 3 bytes.
    pub fn push_digit(&mut self, c: char)
        requires
            byte_len(old(self).focused_input()) <= usize::MAX,
        ensures
            old(self).typed_into(final(self), c),
            old(self).wf() ==> final(self).wf(),
            old(self).boxes_ok() && is_digit(c) ==> final(self).boxes_ok(),
    {
        proof {
            lemma_digit_box_typed(self.input_quotient@, c);
            lemma_digit_box_typed(self.input_remainder@, c);
        }
        match self.focus {
            InputField::Quotient => {
                if self.input_quotient.as_str().len() < 3 {
                    string_push(&mut self.input_quotient, c);
                }
            },
            InputField::Remainder => {
                if self.input_remainder.as_str().len() < 3 {
                    string_push(&mut self.input_remainder, c);
                }
            },
        }
    }

    /// Erases the last character of the focused box.
    pub fn pop_digit(&mut self)
        ensures
            old(self).erased_from(final(self)),
            old(self).wf() ==> final(self).wf(),
            old(self).boxes_ok() ==> final(self).boxes_ok(),
    {
        proof {
            lemma_digit_box_typed(self.input_quotient@, ' ');
            lemma_digit_box_typed(self.input_remainder@, ' ');
        }
        match self.focus {
            InputField::Quotient => {
                string_pop(&mut self.input_quotient);
            },
            InputField::Remainder => {
                string_pop(&mut self.input_remainder);
            },
        }
    }

    /// Handles Enter while asking.
    pub fn confirm(&mut self)
        ensures
            old(self).confirmed(final(self)),
            old(self).wf() ==> final(self).wf(),
            old(self).boxes_ok() ==> final(self).boxes_ok(),
    {
        match self.difficulty {
            Difficulty::Easy => self.submit(),
            Difficulty::Hard => match self.focus {
                InputField::Quotient => {
                    if !self.input_quotient.as_str().is_empty() {
                        self.focus = InputField::Remainder;
                    }
                },
                InputField::Remainder => self.submit(),
            },
        }
    }

    /// Records the typed answer and shows whether it is right; does nothing
    /// while a needed box is empty.
    pub fn submit(&mut self)
        ensures
            old(self).submitted(final(self)),
            old(self).wf() ==> final(self).wf(),
            old(self).boxes_ok() ==> final(self).boxes_ok(),
    {
        if self.input_quotient.as_str().is_empty() {
            return;
        }
        if self.difficulty.has_remainder() && self.input_remainder.as_str().is_empty() {
            return;
        }
        let user_q: u32 = match parse_u32(self.input_quotient.as_str()) {
            Some(v) => v,
            None => u32::MAX,
        };
        let user_r: u32 = if self.difficulty.has_remainder() {
            match parse_u32(self.input_remainder.as_str()) {
                Some(v) => v,
                None => u32::MAX,
            }
        } else {
            0
        };
        let correct = user_q == self.problem.quotient && user_r == self.problem.remainder;
        let attempt = Attempt { problem: self.problem, user_quotient: user_q, user_remainder: user_r };
        self.history.push(attempt);
        self.screen = QuizScreen::Playing { mode: Mode::ShowingResult { correct } };
        proof {
            if old(self).wf() {
                assert forall|i: int| 0 <= i < self.history@.len() implies recorded_ok(
                    #[trigger] self.history@[i],
                ) by {
                    if i < old(self).history@.len() {
                        assert(self.history@[i] == old(self).history@[i]);
                    }
                }
            }
        }
    }

    /// Starts playing at difficulty `difficulty` with a fresh problem.
    pub fn start(&mut self, difficulty: Difficulty)
        ensures
            old(self).restarted(final(self), difficulty),
            old(self).wf() ==> final(self).wf(),
            final(self).boxes_ok(),
    {
        self.difficulty = difficulty;
        self.problem = Problem::new(difficulty);
        self.input_quotient = String::new();
        self.input_remainder = String::new();
        self.focus = InputField::Quotient;
        self.screen = QuizScreen::Playing { mode: Mode::Asking };
    }

    /// Moves on to a fresh problem of the same difficulty.
    pub fn next_problem(&mut self)
        ensures
            old(self).restarted(final(self), old(self).difficulty),
            old(self).wf() ==> final(self).wf(),
            final(self).boxes_ok(),
    {
        self.problem = Problem::new(self.difficulty);
        self.input_quotient = String::new();
        self.input_remainder = String::new();
        self.focus = InputField::Quotient;
        self.screen = QuizScreen::Playing { mode: Mode::Asking };
    }

    /// How many recorded attempts were right.
    pub fn correct_count(&self) -> (r: usize)
        ensures
            r == count_correct(self.history@),
            r <= self.history@.len(),
    {
        let mut count: usize = 0;
        let mut i: usize = 0;
        while i < self.history.len()
            invariant
                i <= self.history@.len(),
                count == count_correct(self.history@.take(i as int)),
                count <= i,
            decreases self.history@.len() - i,
        {
            assert(self.history@.take(i + 1).drop_last() =~= self.history@.take(i as int));
            if self.history[i].is_correct() {
                count = count + 1;
            }
            i = i + 1;
        }
        assert(self.history@.take(i as int) =~= self.history@);
        count
    }

    /// The share of right attempts in percent, rounded down; `None` before the
    /// first attempt.
    pub fn accuracy_percent(&self) -> (r: Option<u32>)
        requires
            count_correct(self.history@) * 100 <= u32::MAX,
            self.history@.len() <= u32::MAX,
        ensures
            self.history@.len() == 0 ==> r is None,
            self.history@.len() > 0 ==> r == Some(
                ((count_correct(self.history@) * 100) / self.history@.len()) as u32,
            ),
            r matches Some(p) ==> p <= 100,
            r matches Some(p) ==> p * self.history@.len() <= 100 * count_correct(self.history@)
                && 100 * count_correct(self.history@) < (p + 1) * self.history@.len(),
    {
        let total = self.history.len();
        if total == 0 {
            return None;
        }
        let correct = self.correct_count();
        let pct = (correct as u32 * 100) / total as u32;
        assert(pct <= 100 && pct * total <= 100 * correct && 100 * correct < (pct + 1) * total)
            by (nonlinear_arith)
            requires
                pct == (correct * 100) / (total as int),
                correct <= total,
                total > 0,
        ;
        Some(pct)
    }

    /// What a key does: non-press events and keys the screen does not use
    /// change nothing; `q` quits; on the setup screen `1` and `2` start Easy
    /// and Hard; while asking, digits are typed, Backspace erases and Enter
    /// confirms; while showing a result, Enter moves on.
    pub fn handle_key(&mut self, key: Key, pressed: bool) -> (s: Step)
        requires
            old(self).boxes_fit(),
        ensures
            !pressed ==> s == Step::Continue && old(self).same(final(self)),
            pressed && key == Key::Char('q') ==> s == Step::Quit && old(self).same(final(self)),
            pressed && key != Key::Char('q') ==> s == Step::Continue && match old(self).screen {
                QuizScreen::Setup => if key == Key::Char('1') {
                    old(self).restarted(final(self), Difficulty::Easy)
                } else if key == Key::Char('2') {
                    old(self).restarted(final(self), Difficulty::Hard)
                } else {
                    old(self).same(final(self))
                },
                QuizScreen::Playing { mode: Mode::Asking } => match key {
                    Key::Char(c) => if '0' <= c && c <= '9' {
                        old(self).typed_into(final(self), c)
                    } else {
                        old(self).same(final(self))
                    },
                    Key::Backspace => old(self).erased_from(final(self)),
                    Key::Enter => old(self).confirmed(final(self)),
                    Key::Other => old(self).same(final(self)),
                },
                QuizScreen::Playing { mode: Mode::ShowingResult { .. } } => if key == Key::Enter {
                    old(self).restarted(final(self), old(self).difficulty)
                } else {
                    old(self).same(final(self))
                },
            },
            old(self).wf() ==> final(self).wf(),
            old(self).boxes_ok() ==> final(self).boxes_ok(),
            final(self).history@ == old(self).history@ || final(self).history@ == old(
                self,
            ).history@.push(old(self).pending_attempt()),
    {
        if !pressed {
            return Step::Continue;
        }
        if let Key::Char('q') = key {
            return Step::Quit;
        }
        match self.screen {
            QuizScreen::Setup => match key {
                Key::Char('1') => self.start(Difficulty::Easy),
                Key::Char('2') => self.start(Difficulty::Hard),
                _ => {},
            },
            QuizScreen::Playing { mode } => match mode {
                Mode::Asking => match key {
                    Key::Char(c) => {
                        if '0' <= c && c <= '9' {
                            self.push_digit(c);
                        }
                    },
                    Key::Backspace => self.pop_digit(),
                    Key::Enter => self.confirm(),
                    Key::Other => {},
                },
                Mode::ShowingResult { .. } => match key {
                    Key::Enter => self.next_problem(),
                    _ => {},
                },
            },
        }
        Step::Continue
    }
}

/// Typing the true answer gets it judged right: when the quotient box holds
/// the quotient written in decimal, and at Hard the remainder box holds the
/// remainder, the attempt that submitting records is correct.
pub proof fn lemma_true_answer_is_judged_right(app: App)
    requires
        app.wf(),
        app.input_quotient@ == decimal(app.problem.quotient as nat),
        app.difficulty is Hard ==> app.input_remainder@ == decimal(app.problem.remainder as nat),
    ensures
        app.can_submit(),
        app.pending_attempt().correct(),
{
    lemma_parse_decimal(app.problem.quotient);
    lemma_parse_decimal(app.problem.remainder);
    crate::text::lemma_decimal_digits(app.problem.quotient as nat);
    crate::text::lemma_decimal_digits(app.problem.remainder as nat);
}

/// An attempt is judged right only if both numbers typed are the problem's
/// answer: a wrong quotient, or at Hard a wrong remainder, is judged wrong.
pub proof fn lemma_judged_right_only_for_true_answer(app: App)
    requires
        app.wf(),
        app.pending_attempt().correct(),
    ensures
        answer_value(app.input_quotient@) == app.problem.quotient,
        app.difficulty is Hard ==> answer_value(app.input_remainder@) == app.problem.remainder,
{
}

/// Submitting records the shown result: after a submission that is taken,
/// the last attempt is the pending one, and the screen shows exactly whether
/// that attempt is right; a submission that is not taken changes nothing.
pub proof fn lemma_submit_shows_recorded_result(before: App, after: App)
    requires
        before.submitted(&after),
    ensures
        before.can_submit() ==> after.history@.len() == before.history@.len() + 1
            && after.history@.last() == before.pending_attempt()
            && after.screen == (QuizScreen::Playing {
                mode: Mode::ShowingResult { correct: after.history@.last().correct() },
            }),
        !before.can_submit() ==> before.same(&after),
{
}

/// The right attempts are exactly those whose quotient and remainder both
/// match the problem's: their number is the length of the history filtered
/// on that test.
pub proof fn lemma_count_correct_counts_full_matches(h: Seq<Attempt>)
    ensures
        count_correct(h) == h.filter(
            |a: Attempt| a.user_quotient == a.problem.quotient && a.user_remainder == a.problem.remainder,
        ).len(),
    decreases h.len(),
{
    reveal(Seq::filter);
    let pred = |a: Attempt| a.user_quotient == a.problem.quotient && a.user_remainder == a.problem.remainder;
    if h.len() > 0 {
        lemma_count_correct_counts_full_matches(h.drop_last());
        assert(h.filter(pred) == (if pred(h.last()) {
            h.drop_last().filter(pred).push(h.last())
        } else {
            h.drop_last().filter(pred)
        }));
    }
}

/// A taken submission adds one to the right-attempt count exactly when the
/// typed quotient, and the typed remainder at Hard (0 at Easy), both equal
/// the problem's; a wrong remainder leaves the count as it was.
pub proof fn lemma_submit_counts_only_full_matches(before: App, after: App)
    requires
        before.submitted(&after),
        before.can_submit(),
    ensures
        count_correct(after.history@) == count_correct(before.history@) + if answer_value(
            before.input_quotient@,
        ) == before.problem.quotient && (if before.difficulty is Hard {
            answer_value(before.input_remainder@)
        } else {
            0
        }) == before.problem.remainder {
            1nat
        } else {
            0nat
        },
{
    assert(after.history@.drop_last() =~= before.history@);
}

/// Typing into a box that holds fewer than 3 bytes appends exactly the typed
/// character to the focused box, whatever the character (a `0` into an empty
/// box too); the box is then non-empty and the other box is untouched.
pub proof fn lemma_typing_appends(before: App, after: App, c: char)
    requires
        before.typed_into(&after, c),
        byte_len(before.focused_input()) < 3,
    ensures
        after.focus == before.focus,
        after.focused_input() == before.focused_input().push(c),
        after.focused_input().len() > 0,
        before.focus is Quotient ==> after.input_remainder@ == before.input_remainder@,
        before.focus is Remainder ==> after.input_quotient@ == before.input_quotient@,
{
}

/// Typing a box's characters one after another, as `push_digit` does.
pub open spec fn typed_all(start: Seq<char>, keys: Seq<char>) -> Seq<char>
    decreases keys.len(),
{
    if keys.len() == 0 {
        start
    } else {
        typed(typed_all(start, keys.drop_last()), keys.last())
    }
}

/// Typing up to three digits into an empty box leaves exactly those digits
/// in it: every answer of at most three digits, `0` included, can be entered.
pub proof fn lemma_typing_digits_fills_box(keys: Seq<char>)
    requires
        digit_box(keys),
    ensures
        typed_all(Seq::<char>::empty(), keys) == keys,
    decreases keys.len(),
{
    if keys.len() > 0 {
        let prefix = keys.drop_last();
        assert(digit_box(prefix)) by {
            assert forall|i: int| 0 <= i < prefix.len() implies is_digit(#[trigger] prefix[i]) by {
                assert(prefix[i] == keys[i]);
            }
        }
        lemma_typing_digits_fills_box(prefix);
        assert(vstd::utf8::is_ascii_chars(prefix));
        vstd::utf8::is_ascii_chars_encode_utf8(prefix);
        assert(prefix.push(keys.last()) =~= keys);
    }
}

/// Typing the decimal digits of a remainder into the empty remainder box at
/// Hard, after a quotient, gives a state whose answer can be submitted and
/// reads back as that remainder.
pub proof fn lemma_remainder_can_be_entered(app: App, r: u32)
    requires
        app.difficulty is Hard,
        app.input_quotient@.len() > 0,
        app.input_remainder@.len() == 0,
        r <= 999,
    ensures
        typed_all(app.input_remainder@, decimal(r as nat)) == decimal(r as nat),
        answer_value(typed_all(app.input_remainder@, decimal(r as nat))) == r,
        typed_all(app.input_remainder@, decimal(r as nat)).len() > 0,
{
    crate::text::lemma_decimal_digits(r as nat);
    lemma_decimal_at_most_three_digits(r as nat);
    assert(app.input_remainder@ =~= Seq::<char>::empty());
    lemma_typing_digits_fills_box(decimal(r as nat));
    lemma_parse_decimal(r);
}

/// A number below 1000 has at most three decimal digits.
proof fn lemma_decimal_at_most_three_digits(n: nat)
    requires
        n <= 999,
    ensures
        decimal(n).len() <= 3,
{
    reveal_with_fuel(decimal, 3);
}

/// Counting right attempts never gives more than the number of attempts.
pub proof fn lemma_count_correct_bounded(h: Seq<Attempt>)
    ensures
        count_correct(h) <= h.len(),
    decreases h.len(),
{
    if h.len() > 0 {
        lemma_count_correct_bounded(h.drop_last());
    }
}

} // verus!
