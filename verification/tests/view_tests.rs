use division_quiz::division::{Difficulty, Problem};
use division_quiz::quiz::{App, Attempt};
use division_quiz::view::{display_with_focus, StyledLine, Tone};

fn texts(lines: &[StyledLine]) -> Vec<String> {
    lines.iter().map(|l| l.text.clone()).collect()
}

fn app_with(d: Difficulty, p: Problem) -> App {
    let mut app = App::new();
    app.start(d);
    app.problem = p;
    app
}

#[test]
fn display_with_focus_shows_blank_as_underscore() {
    assert_eq!(display_with_focus("", true), "_");
    assert_eq!(display_with_focus("", false), "_");
    assert_eq!(display_with_focus("12", false), "12");
}

#[test]
fn setup_lines() {
    let app = App::new();
    let lines = app.quiz_lines();
    assert_eq!(
        texts(&lines),
        vec![
            "", "", "Select Difficulty", "", "1. Easy Mode (no remainder)",
            "2. Hard Mode (with remainder)", "", "Press 1 or 2 to start",
        ]
    );
    assert!(lines.iter().all(|l| l.tone == Tone::Plain));
}

#[test]
fn easy_asking_lines() {
    let mut app = app_with(Difficulty::Easy, Problem { dividend: 56, divisor: 7, quotient: 8, remainder: 0 });
    assert_eq!(
        texts(&app.quiz_lines()),
        vec![" ▁▁▁", "7)56", "", "Your Answer: _", "", "Press Enter to submit"]
    );
    app.push_digit('8');
    assert_eq!(texts(&app.quiz_lines())[3], "Your Answer: 8");
}

#[test]
fn hard_asking_lines_follow_focus() {
    let mut app = app_with(Difficulty::Hard, Problem { dividend: 100, divisor: 7, quotient: 14, remainder: 2 });
    let lines = texts(&app.quiz_lines());
    assert_eq!(lines[3], "Your Answer for Quotient: _");
    assert_eq!(lines[5], "Enter quotient, then press Enter");
    app.push_digit('1');
    app.push_digit('4');
    app.confirm();
    let lines = texts(&app.quiz_lines());
    assert_eq!(lines[3], "Your Answer for Remainder: _");
    assert_eq!(lines[5], "Enter remainder, then press Enter");
}

#[test]
fn result_lines_right_and_wrong() {
    let mut app = app_with(Difficulty::Hard, Problem { dividend: 100, divisor: 7, quotient: 14, remainder: 2 });
    app.push_digit('1');
    app.push_digit('4');
    app.confirm();
    app.push_digit('3');
    app.confirm();
    let lines = app.quiz_lines();
    assert_eq!(
        texts(&lines),
        vec![
            " ▁▁▁▁", "7)100", "", "Your answer: Q:14, R:3", "",
            "Wrong! The correct answer is 14 R 2", "", "Press Enter for next problem",
        ]
    );
    assert_eq!(lines[5].tone, Tone::Bad);

    let mut easy = app_with(Difficulty::Easy, Problem { dividend: 56, divisor: 7, quotient: 8, remainder: 0 });
    easy.push_digit('8');
    easy.submit();
    let lines = easy.quiz_lines();
    assert_eq!(lines[3].text, "Your answer: 8");
    assert_eq!(lines[5].text, "Correct!");
    assert_eq!(lines[5].tone, Tone::Good);

    let mut easy_wrong = app_with(Difficulty::Easy, Problem { dividend: 56, divisor: 7, quotient: 8, remainder: 0 });
    easy_wrong.push_digit('9');
    easy_wrong.submit();
    assert_eq!(easy_wrong.quiz_lines()[5].text, "Wrong! The correct answer is 8");
}

#[test]
fn history_lines_of_attempts() {
    let p = Problem { dividend: 56, divisor: 7, quotient: 8, remainder: 0 };
    let right = Attempt { problem: p, user_quotient: 8, user_remainder: 0 }.history_line();
    assert_eq!(right.text, "✓ 56 ÷ 7 = 8");
    assert_eq!(right.tone, Tone::Good);
    let wrong = Attempt { problem: p, user_quotient: 9, user_remainder: 0 }.history_line();
    assert_eq!(wrong.text, "✗ 56 ÷ 7 = 8 (Your answer: 9)");
    assert_eq!(wrong.tone, Tone::Bad);
    let h = Problem { dividend: 100, divisor: 7, quotient: 14, remainder: 2 };
    let hard_wrong = Attempt { problem: h, user_quotient: 14, user_remainder: 3 }.history_line();
    assert_eq!(hard_wrong.text, "✗ 100 ÷ 7 = 14, R:2 (Your answer: 14 R:3)");
    let hard_right = Attempt { problem: h, user_quotient: 14, user_remainder: 2 }.history_line();
    assert_eq!(hard_right.text, "✓ 100 ÷ 7 = 14, R:2");
}

#[test]
fn stats_and_history_panel() {
    let mut app = app_with(Difficulty::Easy, Problem { dividend: 56, divisor: 7, quotient: 8, remainder: 0 });
    assert_eq!(app.stats_text(), "No attempts yet");
    assert!(app.history_lines().is_empty());
    for answer in ['8', '7', '8'] {
        app.problem = Problem { dividend: 56, divisor: 7, quotient: 8, remainder: 0 };
        app.push_digit(answer);
        app.submit();
        app.next_problem();
    }
    assert_eq!(app.stats_text(), "Accuracy: 66% (2 / 3)");
    let h = app.history_lines();
    assert_eq!(
        texts(&h),
        vec!["✓ 56 ÷ 7 = 8", "✗ 56 ÷ 7 = 8 (Your answer: 7)", "✓ 56 ÷ 7 = 8"]
    );
}
