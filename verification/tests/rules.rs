use savisaac::bank;
use savisaac::machine::miguel_submit;
use savisaac::state::{State, Trivia};

#[test]
fn drink_conversion_zero_and_one_are_correct() {
    assert_eq!(State::from(0usize), State::Drink { correct: true, count: 0 });
    assert_eq!(State::from(1usize), State::Drink { correct: true, count: 1 });
    assert_eq!(State::from(2usize), State::Drink { correct: false, count: 2 });
    assert_eq!(State::from(7usize), State::Drink { correct: false, count: 7 });
}

#[test]
fn miguel_accepts_exactly_one() {
    assert_eq!(miguel_submit("1.0"), State::GiveDrinks(5));
    assert_eq!(miguel_submit("1"), State::GiveDrinks(5));
    assert_eq!(miguel_submit(" 1.0 "), State::GiveDrinks(5));
    let wrong = State::Drink { correct: false, count: 3 };
    assert_eq!(miguel_submit("2"), wrong);
    assert_eq!(miguel_submit("abc"), wrong);
    assert_eq!(miguel_submit(""), wrong);
}

#[test]
fn miguel_edge_spellings_of_one() {
    assert_eq!(miguel_submit("+1"), State::GiveDrinks(5));
    assert_eq!(miguel_submit("1."), State::GiveDrinks(5));
    assert_eq!(miguel_submit("001.000"), State::GiveDrinks(5));
    let wrong = State::Drink { correct: false, count: 3 };
    assert_eq!(miguel_submit("-1"), wrong);
    assert_eq!(miguel_submit("."), wrong);
    assert_eq!(miguel_submit("1.01"), wrong);
    assert_eq!(miguel_submit("10"), wrong);
    assert_eq!(miguel_submit("0.1"), wrong);
    assert_eq!(miguel_submit("1 0"), wrong);
}

#[test]
fn jvm_item_accepts_name_or_last() {
    let t = bank::build_item(4);
    match &t {
        Trivia::ShortAnswer { question, validate } => {
            assert_eq!(
                question.as_str(),
                "What is the significance of the phrase \"Santa Clara Java Virtual Machine\"?"
            );
            assert_eq!(validate.evaluate("It is my LAST name"), State::GiveDrinks(4));
            assert_eq!(validate.evaluate("name"), State::GiveDrinks(4));
            assert_eq!(validate.evaluate("the Name of someone"), State::GiveDrinks(4));
            assert_eq!(
                validate.evaluate("no idea"),
                State::Drink { correct: false, count: 2 }
            );
            assert_eq!(validate.evaluate(""), State::Drink { correct: false, count: 2 });
        }
        Trivia::MultipleChoice { .. } => panic!("expected a short-answer item"),
    }
}

#[test]
fn tattoo_item_accepts_grace_trimmed_and_case_insensitive() {
    let t = bank::build_item(3);
    match &t {
        Trivia::ShortAnswer { question: _, validate } => {
            assert_eq!(
                validate.evaluate("  GrAcE \n"),
                State::Drink { correct: true, count: 1 }
            );
            assert_eq!(validate.evaluate("grace"), State::Drink { correct: true, count: 1 });
            assert_eq!(validate.evaluate("gracee"), State::Drink { correct: false, count: 3 });
            assert_eq!(validate.evaluate(""), State::Drink { correct: false, count: 3 });
        }
        Trivia::MultipleChoice { .. } => panic!("expected a short-answer item"),
    }
}

#[test]
fn wooing_item_accepts_either_word() {
    let t = bank::build_item(5);
    match &t {
        Trivia::ShortAnswer { question: _, validate } => {
            assert_eq!(validate.evaluate("Frulam!"), State::GiveDrinks(3));
            assert_eq!(validate.evaluate("was it mondath?"), State::GiveDrinks(3));
            assert_eq!(
                validate.evaluate("helsinki"),
                State::Drink { correct: false, count: 3 }
            );
        }
        Trivia::MultipleChoice { .. } => panic!("expected a short-answer item"),
    }
}

#[test]
fn senior_design_item_accepts_either_word() {
    let t = bank::build_item(6);
    match &t {
        Trivia::ShortAnswer { question: _, validate } => {
            assert_eq!(validate.evaluate("a HUMAN keyboard"), State::GiveDrinks(3));
            assert_eq!(validate.evaluate("keyboard"), State::GiveDrinks(3));
            assert_eq!(
                validate.evaluate("a robot"),
                State::Drink { correct: false, count: 3 }
            );
        }
        Trivia::MultipleChoice { .. } => panic!("expected a short-answer item"),
    }
}

#[test]
fn miguel_accepts_exponent_spellings_of_one() {
    assert_eq!(miguel_submit("1e0"), State::GiveDrinks(5));
    assert_eq!(miguel_submit("1.0E0"), State::GiveDrinks(5));
    assert_eq!(miguel_submit("10e-1"), State::GiveDrinks(5));
    assert_eq!(miguel_submit(".1e1"), State::GiveDrinks(5));
    assert_eq!(miguel_submit("100e-2"), State::GiveDrinks(5));
    assert_eq!(miguel_submit("1e+0"), State::GiveDrinks(5));
    assert_eq!(miguel_submit("1e00000000000000000000000"), State::GiveDrinks(5));
}

#[test]
fn miguel_rejects_exponents_away_from_one() {
    let wrong = State::Drink { correct: false, count: 3 };
    assert_eq!(miguel_submit("1e1"), wrong);
    assert_eq!(miguel_submit("2e-1"), wrong);
    assert_eq!(miguel_submit("1e"), wrong);
    assert_eq!(miguel_submit("1e+"), wrong);
    assert_eq!(miguel_submit("1x0"), wrong);
    assert_eq!(miguel_submit("1e999999999999999999999999"), wrong);
    assert_eq!(miguel_submit("1e-999999999999999999999999"), wrong);
}

#[test]
fn miguel_trims_unicode_whitespace() {
    assert_eq!(miguel_submit("\u{a0}1.0\u{2003}"), State::GiveDrinks(5));
    assert_eq!(miguel_submit("\u{b}1\u{85}"), State::GiveDrinks(5));
    assert_eq!(miguel_submit("\u{3000} 10e-1 \u{2028}"), State::GiveDrinks(5));
}

#[test]
fn tattoo_item_trims_unicode_whitespace() {
    let t = bank::build_item(3);
    match &t {
        Trivia::ShortAnswer { question: _, validate } => {
            assert_eq!(
                validate.evaluate("\u{a0}grace\u{3000}"),
                State::Drink { correct: true, count: 1 }
            );
        }
        Trivia::MultipleChoice { .. } => panic!("expected a short-answer item"),
    }
}

#[test]
fn senior_design_accepts_kelvin_sign() {
    let t = bank::build_item(6);
    match &t {
        Trivia::ShortAnswer { question: _, validate } => {
            assert_eq!(validate.evaluate("\u{212a}eyboard"), State::GiveDrinks(3));
        }
        Trivia::MultipleChoice { .. } => panic!("expected a short-answer item"),
    }
}
