use division_quiz::division::{Difficulty, Problem};
use division_quiz::quiz::{App, Attempt, InputField, Key, Mode, QuizScreen, Step};

fn easy_app() -> App {
    let mut app = App::new();
    app.start(Difficulty::Easy);
    app.problem = Problem { dividend: 56, divisor: 7, quotient: 8, remainder: 0 };
    app
}

fn hard_app() -> App {
    let mut app = App::new();
    app.start(Difficulty::Hard);
    app.problem = Problem { dividend: 100, divisor: 7, quotient: 14, remainder: 2 };
    app
}

fn type_str(app: &mut App, s: &str) {
    for c in s.chars() {
        app.push_digit(c);
    }
}

#[test]
fn new_app_starts_on_setup() {
    let app = App::new();
    assert_eq!(app.screen, QuizScreen::Setup);
    assert_eq!(app.difficulty, Difficulty::Easy);
    assert_eq!(app.focus, InputField::Quotient);
    assert!(app.input_quotient.is_empty() && app.input_remainder.is_empty());
    assert!(app.history.is_empty());
    assert_eq!(app.problem.remainder, 0);
    assert!(app.problem.dividend <= 81);
}

#[test]
fn attempt_correctness() {
    let p = Problem { dividend: 100, divisor: 7, quotient: 14, remainder: 2 };
    assert!(Attempt { problem: p, user_quotient: 14, user_remainder: 2 }.is_correct());
    assert!(!Attempt { problem: p, user_quotient: 14, user_remainder: 3 }.is_correct());
    assert!(!Attempt { problem: p, user_quotient: 13, user_remainder: 2 }.is_correct());
}

#[test]
fn typing_stops_at_three_bytes() {
    let mut app = easy_app();
    type_str(&mut app, "12345");
    assert_eq!(app.input_quotient, "123");
    assert_eq!(app.input_remainder, "");
}

#[test]
fn typing_counts_bytes_not_chars() {
    let mut app = easy_app();
    app.push_digit('é');
    app.push_digit('1');
    app.push_digit('2');
    assert_eq!(app.input_quotient, "é1");
}

#[test]
fn backspace_erases_last_char() {
    let mut app = easy_app();
    type_str(&mut app, "12");
    app.pop_digit();
    assert_eq!(app.input_quotient, "1");
    app.pop_digit();
    app.pop_digit();
    assert_eq!(app.input_quotient, "");
}

#[test]
fn easy_submit_right_answer() {
    let mut app = easy_app();
    type_str(&mut app, "8");
    app.confirm();
    assert_eq!(app.screen, QuizScreen::Playing { mode: Mode::ShowingResult { correct: true } });
    assert_eq!(app.history.len(), 1);
    assert_eq!(app.history[0].user_quotient, 8);
    assert_eq!(app.history[0].user_remainder, 0);
}

#[test]
fn easy_submit_wrong_answer() {
    let mut app = easy_app();
    type_str(&mut app, "9");
    app.submit();
    assert_eq!(app.screen, QuizScreen::Playing { mode: Mode::ShowingResult { correct: false } });
    assert!(!app.history[0].is_correct());
}

#[test]
fn empty_submit_is_ignored() {
    let mut app = easy_app();
    app.submit();
    assert_eq!(app.screen, QuizScreen::Playing { mode: Mode::Asking });
    assert!(app.history.is_empty());
}

#[test]
fn unparsable_answer_counts_as_max() {
    let mut app = easy_app();
    app.push_digit('x');
    app.submit();
    assert_eq!(app.history[0].user_quotient, u32::MAX);
}

#[test]
fn hard_confirm_moves_focus_then_submits() {
    let mut app = hard_app();
    app.confirm();
    assert_eq!(app.focus, InputField::Quotient);
    type_str(&mut app, "14");
    app.confirm();
    assert_eq!(app.focus, InputField::Remainder);
    assert_eq!(app.screen, QuizScreen::Playing { mode: Mode::Asking });
    app.confirm();
    assert!(app.history.is_empty());
    type_str(&mut app, "2");
    assert_eq!(app.input_remainder, "2");
    app.confirm();
    assert_eq!(app.screen, QuizScreen::Playing { mode: Mode::ShowingResult { correct: true } });
    assert_eq!(app.history[0].user_remainder, 2);
}

#[test]
fn hard_wrong_remainder_is_wrong() {
    let mut app = hard_app();
    type_str(&mut app, "14");
    app.confirm();
    type_str(&mut app, "3");
    app.confirm();
    assert_eq!(app.screen, QuizScreen::Playing { mode: Mode::ShowingResult { correct: false } });
}

#[test]
fn next_problem_resets_inputs_and_keeps_history() {
    let mut app = hard_app();
    type_str(&mut app, "14");
    app.confirm();
    type_str(&mut app, "2");
    app.confirm();
    app.next_problem();
    assert_eq!(app.screen, QuizScreen::Playing { mode: Mode::Asking });
    assert_eq!(app.focus, InputField::Quotient);
    assert!(app.input_quotient.is_empty() && app.input_remainder.is_empty());
    assert_eq!(app.history.len(), 1);
    assert_eq!(app.difficulty, Difficulty::Hard);
    assert!(app.problem.dividend >= 100);
}

#[test]
fn counts_and_accuracy() {
    let mut app = easy_app();
    assert_eq!(app.correct_count(), 0);
    assert_eq!(app.accuracy_percent(), None);
    for answer in ["8", "7", "8"] {
        app.problem = Problem { dividend: 56, divisor: 7, quotient: 8, remainder: 0 };
        type_str(&mut app, answer);
        app.submit();
        app.next_problem();
    }
    assert_eq!(app.correct_count(), 2);
    assert_eq!(app.accuracy_percent(), Some(66));
}

#[test]
fn accuracy_all_right_is_100() {
    let mut app = easy_app();
    type_str(&mut app, "8");
    app.submit();
    assert_eq!(app.accuracy_percent(), Some(100));
}

#[test]
fn keys_drive_a_whole_round() {
    let mut app = App::new();
    assert_eq!(app.handle_key(Key::Char('3'), true), Step::Continue);
    assert_eq!(app.screen, QuizScreen::Setup);
    assert_eq!(app.handle_key(Key::Char('2'), false), Step::Continue);
    assert_eq!(app.screen, QuizScreen::Setup);
    assert_eq!(app.handle_key(Key::Char('2'), true), Step::Continue);
    assert_eq!(app.difficulty, Difficulty::Hard);
    assert_eq!(app.screen, QuizScreen::Playing { mode: Mode::Asking });
    app.problem = Problem { dividend: 100, divisor: 7, quotient: 14, remainder: 2 };
    app.handle_key(Key::Char('x'), true);
    assert_eq!(app.input_quotient, "");
    app.handle_key(Key::Char('1'), true);
    app.handle_key(Key::Char('5'), true);
    app.handle_key(Key::Backspace, true);
    app.handle_key(Key::Char('4'), true);
    app.handle_key(Key::Enter, true);
    app.handle_key(Key::Char('2'), true);
    app.handle_key(Key::Other, true);
    app.handle_key(Key::Enter, true);
    assert_eq!(app.screen, QuizScreen::Playing { mode: Mode::ShowingResult { correct: true } });
    app.handle_key(Key::Char('1'), true);
    assert_eq!(app.screen, QuizScreen::Playing { mode: Mode::ShowingResult { correct: true } });
    app.handle_key(Key::Enter, true);
    assert_eq!(app.screen, QuizScreen::Playing { mode: Mode::Asking });
    assert_eq!(app.history.len(), 1);
    assert_eq!(app.handle_key(Key::Char('q'), true), Step::Quit);
}

#[test]
fn q_quits_everywhere() {
    let mut app = App::new();
    assert_eq!(app.handle_key(Key::Char('q'), true), Step::Quit);
    app.start(Difficulty::Easy);
    assert_eq!(app.handle_key(Key::Char('q'), true), Step::Quit);
    assert_eq!(app.input_quotient, "");
    assert_eq!(app.handle_key(Key::Char('q'), false), Step::Continue);
}
