use division_quiz::division::{Difficulty, Problem};

#[test]
fn label_names_each_difficulty() {
    assert_eq!(Difficulty::Easy.label(), "Easy");
    assert_eq!(Difficulty::Hard.label(), "Hard");
}

#[test]
fn only_hard_has_a_remainder() {
    assert!(!Difficulty::Easy.has_remainder());
    assert!(Difficulty::Hard.has_remainder());
}

#[test]
fn easy_draws_multiply_out() {
    let p = Problem::from_easy_draws(7, 8);
    assert_eq!(p, Problem { dividend: 56, divisor: 7, quotient: 8, remainder: 0 });
}

#[test]
fn hard_draws_divide() {
    let p = Problem::from_hard_draws(100, 7);
    assert_eq!(p, Problem { dividend: 100, divisor: 7, quotient: 14, remainder: 2 });
    let q = Problem::from_hard_draws(999, 99);
    assert_eq!((q.quotient, q.remainder), (10, 9));
}

#[test]
fn new_easy_problems_stay_in_range() {
    for _ in 0..2000 {
        let p = Problem::new(Difficulty::Easy);
        assert!((2..=9).contains(&p.divisor));
        assert!((2..=9).contains(&p.quotient));
        assert_eq!(p.dividend, p.divisor * p.quotient);
        assert_eq!(p.remainder, 0);
    }
}

#[test]
fn new_hard_problems_stay_in_range() {
    for _ in 0..2000 {
        let p = Problem::new(Difficulty::Hard);
        assert!((100..=999).contains(&p.dividend));
        assert!((10..=99).contains(&p.divisor));
        assert_eq!(p.quotient, p.dividend / p.divisor);
        assert_eq!(p.remainder, p.dividend % p.divisor);
        assert_eq!(p.dividend, p.divisor * p.quotient + p.remainder);
        assert!(p.remainder < p.divisor);
    }
}

#[test]
fn new_problems_vary() {
    let first = Problem::new(Difficulty::Hard);
    let mut differs = false;
    for _ in 0..200 {
        if Problem::new(Difficulty::Hard) != first {
            differs = true;
        }
    }
    assert!(differs);
}

#[test]
fn question_text_of_an_easy_problem() {
    let p = Problem { dividend: 56, divisor: 7, quotient: 8, remainder: 0 };
    assert_eq!(p.question_text(), " ▁▁▁\n7)56");
}

#[test]
fn question_text_of_a_hard_problem() {
    let p = Problem { dividend: 100, divisor: 12, quotient: 8, remainder: 4 };
    assert_eq!(p.question_text(), "  ▁▁▁▁\n12)100");
}

#[test]
fn question_text_has_two_lines() {
    let p = Problem { dividend: 999, divisor: 10, quotient: 99, remainder: 9 };
    let text = p.question_text();
    let lines: Vec<&str> = text.lines().collect();
    assert_eq!(lines, vec!["  ▁▁▁▁", "10)999"]);
}

#[test]
fn generate_draws_from_the_stated_ranges() {
    let highest = Problem::generate(Difficulty::Easy, |_low: u32, high: u32| high);
    assert_eq!(highest, Problem { dividend: 81, divisor: 9, quotient: 9, remainder: 0 });
    let lowest = Problem::generate(Difficulty::Easy, |low: u32, _high: u32| low);
    assert_eq!(lowest, Problem { dividend: 4, divisor: 2, quotient: 2, remainder: 0 });
    let hard_high = Problem::generate(Difficulty::Hard, |_low: u32, high: u32| high);
    assert_eq!(hard_high, Problem { dividend: 999, divisor: 99, quotient: 10, remainder: 9 });
    let hard_low = Problem::generate(Difficulty::Hard, |low: u32, _high: u32| low);
    assert_eq!(hard_low, Problem { dividend: 100, divisor: 10, quotient: 10, remainder: 0 });
}

#[test]
fn generate_asks_for_each_range_once() {
    let asked = std::cell::RefCell::new(Vec::new());
    Problem::generate(Difficulty::Hard, |low: u32, high: u32| {
        asked.borrow_mut().push((low, high));
        low
    });
    assert_eq!(*asked.borrow(), vec![(100, 999), (10, 99)]);
    asked.borrow_mut().clear();
    Problem::generate(Difficulty::Easy, |low: u32, high: u32| {
        asked.borrow_mut().push((low, high));
        high
    });
    assert_eq!(*asked.borrow(), vec![(2, 9), (2, 9)]);
}
