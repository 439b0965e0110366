use savisaac::bank;
use savisaac::machine::{resolve, Action, Model, Msg};
use savisaac::person::Person;
use savisaac::render::render;
use savisaac::state::{GenericScreen, State, Trivia};

#[test]
fn bank_holds_eight_items_in_order() {
    let items = bank::bank_items();
    assert_eq!(items.len(), 8);
    match &items[0] {
        Trivia::MultipleChoice { question, choices } => {
            assert_eq!(question.as_str(), "Which Evan is \"Black Evan\"?");
            assert_eq!(choices.len(), 2);
            assert_eq!(choices[0].0.as_str(), "Evan Holmes");
            assert_eq!(choices[0].1, State::Drink { correct: false, count: 4 });
            assert_eq!(choices[1].1, State::Drink { correct: true, count: 1 });
        }
        Trivia::ShortAnswer { .. } => panic!("expected a multiple-choice item"),
    }
    match &items[7] {
        Trivia::MultipleChoice { question, choices } => {
            assert_eq!(question.as_str(), "Who is completely and uterly alone?");
            assert_eq!(choices.len(), 6);
            for c in choices {
                assert_eq!(c.0.as_str(), "Kai");
                assert_eq!(c.1, State::Generic(GenericScreen::KaiAlone));
            }
        }
        Trivia::ShortAnswer { .. } => panic!("expected a multiple-choice item"),
    }
}

#[test]
fn random_draw_covers_every_item() {
    let items = bank::bank_items();
    let mut seen = vec![false; items.len()];
    for _ in 0..4000 {
        let t = bank::random_trivia();
        let i = items
            .iter()
            .position(|x| *x == t)
            .expect("a drawn item must be one of the bank's items");
        seen[i] = true;
    }
    assert!(seen.iter().all(|s| *s));
}

#[test]
fn start_trivia_draws_from_the_bank() {
    let items = bank::bank_items();
    let next = resolve(State::Home, Action::StartTrivia, "");
    match next {
        State::Trivia(t) => assert!(items.iter().any(|x| *x == t)),
        _ => panic!("expected a trivia screen"),
    }
}

#[test]
fn choosing_carl_from_home() {
    let mut m = Model::create();
    let home = render(&m.state);
    assert_eq!(home.lines[0].as_str(), "Savisaac Migkairl!");
    let unique = home
        .actions
        .iter()
        .find(|a| a.label == "Unique")
        .expect("the home screen offers Unique");
    m.apply(unique.act);
    assert_eq!(m.state, State::ChoosePerson);
    let choose = render(&m.state);
    assert_eq!(choose.lines[0].as_str(), "Who are you?");
    let carl = choose
        .actions
        .iter()
        .find(|a| a.label == "Carl")
        .expect("the selection screen offers Carl");
    m.apply(carl.act);
    assert_eq!(m.state, State::Unique(Person::Carl));
    let desc = render(&m.state);
    assert_eq!(desc.lines.len(), 2);
    assert_eq!(desc.lines[0].as_str(), "Escuzi! Bopity boopy!");
    assert_eq!(
        desc.lines[1].as_str(),
        "Take 3 drinks while doing an Italian gesture with your free hand."
    );
    assert_eq!(desc.actions.len(), 1);
    assert_eq!(desc.actions[0].label.as_str(), "Home");
    assert!(matches!(desc.actions[0].act, Action::GoHome));
    assert!(!desc.input);
    m.apply(desc.actions[0].act);
    assert_eq!(m.state, State::Home);
}

#[test]
fn every_screen_offers_home_within_one_action() {
    let states = vec![
        State::Trivia(bank::build_item(0)),
        State::Trivia(bank::build_item(4)),
        State::ChoosePerson,
        State::Unique(Person::Miguel),
        State::Unique(Person::Kai),
        State::Drink { correct: true, count: 1 },
        State::GiveDrinks(3),
        State::Generic(GenericScreen::KaiAlone),
    ];
    for s in states {
        let desc = render(&s);
        assert!(desc.actions.iter().any(|a| matches!(a.act, Action::GoHome)));
        assert_eq!(resolve(s, Action::GoHome, ""), State::Home);
    }
}

#[test]
fn multiple_choice_selection_is_direct_lookup() {
    let next = resolve(State::Trivia(bank::build_item(0)), Action::Choose(0), "");
    assert_eq!(next, State::Drink { correct: false, count: 4 });
    let next = resolve(State::Trivia(bank::build_item(0)), Action::Choose(1), "");
    assert_eq!(next, State::Drink { correct: true, count: 1 });
    let next = resolve(State::Trivia(bank::build_item(7)), Action::Choose(3), "");
    assert_eq!(next, State::Generic(GenericScreen::KaiAlone));
}

#[test]
fn out_of_range_choice_leaves_the_screen() {
    let next = resolve(State::Trivia(bank::build_item(0)), Action::Choose(99), "");
    assert_eq!(next, State::Trivia(bank::build_item(0)));
}

#[test]
fn multiple_choice_render_lists_choices_in_order() {
    let desc = render(&State::Trivia(bank::build_item(1)));
    assert_eq!(desc.lines[0].as_str(), "What was Waffles' very first transformation?");
    assert_eq!(desc.actions.len(), 7);
    assert_eq!(desc.actions[0].label.as_str(), "Giant Toad");
    assert!(matches!(desc.actions[0].act, Action::Choose(0)));
    assert_eq!(desc.actions[4].label.as_str(), "Veloceraptor");
    assert!(matches!(desc.actions[4].act, Action::Choose(4)));
    assert_eq!(desc.actions[5].label.as_str(), "This question was already answered");
    assert!(matches!(desc.actions[5].act, Action::StartTrivia));
    assert_eq!(desc.actions[6].label.as_str(), "Home");
    assert!(matches!(desc.actions[6].act, Action::GoHome));
    assert!(!desc.input);
}

#[test]
fn short_answer_render_offers_text_entry() {
    let desc = render(&State::Trivia(bank::build_item(5)));
    assert_eq!(desc.lines[0].as_str(), "Who did Jesus fail to woo?");
    assert!(desc.input);
    assert_eq!(desc.actions[0].label.as_str(), "Submit");
    assert!(matches!(desc.actions[0].act, Action::Submit));
}

#[test]
fn outcome_lines_are_formatted() {
    let d = render(&State::Drink { correct: false, count: 3 });
    assert_eq!(d.lines[0].as_str(), "Wrong! Take 3 drinks!");
    let d1 = render(&State::Drink { correct: true, count: 1 });
    assert_eq!(d1.lines[0].as_str(), "Correct! Take only 1 drink!");
    let g = render(&State::GiveDrinks(10));
    assert_eq!(g.lines[0].as_str(), "Correct! Give out 10 drinks!");
    let g1 = render(&State::GiveDrinks(1));
    assert_eq!(g1.lines[0].as_str(), "Correct! Give out 1 drink!");
}

#[test]
fn kai_alone_screen_renders_its_own_text() {
    let desc = render(&State::Generic(GenericScreen::KaiAlone));
    assert_eq!(
        desc.lines[0].as_str(),
        "Give Kai 5 drinks to help dull his need for companionship."
    );
    assert_eq!(desc.actions.len(), 1);
    assert!(matches!(desc.actions[0].act, Action::GoHome));
}

#[test]
fn update_replaces_wholesale() {
    let mut m = Model::create();
    assert_eq!(m.state, State::Home);
    assert_eq!(m.entry.as_str(), "");
    assert!(m.update(Msg::Entry("42".to_string())));
    assert_eq!(m.entry.as_str(), "42");
    assert!(m.update(Msg::SetState(State::GiveDrinks(2))));
    assert_eq!(m.state, State::GiveDrinks(2));
    assert_eq!(m.entry.as_str(), "42");
}

#[test]
fn miguel_submit_through_the_model() {
    let mut m = Model::create();
    m.update(Msg::SetState(State::Unique(Person::Miguel)));
    let desc = render(&m.state);
    assert!(desc.input);
    m.update(Msg::Entry(" 1.0 ".to_string()));
    m.apply(Action::Submit);
    assert_eq!(m.state, State::GiveDrinks(5));

    let mut m2 = Model::create();
    m2.update(Msg::SetState(State::Unique(Person::Miguel)));
    m2.update(Msg::Entry("3".to_string()));
    m2.apply(Action::Submit);
    assert_eq!(m2.state, State::Drink { correct: false, count: 3 });
}

#[test]
fn person_names_are_their_labels() {
    assert_eq!(Person::Guest.name().as_str(), "Guest");
    assert_eq!(Person::Savannah.name().as_str(), "Savannah");
    let desc = render(&State::ChoosePerson);
    assert_eq!(desc.actions.len(), 7);
    assert_eq!(desc.actions[0].label.as_str(), "Carl");
    assert!(matches!(desc.actions[0].act, Action::PickPerson(Person::Carl)));
    assert_eq!(desc.actions[5].label.as_str(), "Guest");
    assert!(matches!(desc.actions[5].act, Action::PickPerson(Person::Guest)));
}
