use vstd::prelude::*;

use crate::bank;
use crate::bank::BANK_LEN;
use crate::person::Person;
use crate::state::{State, Trivia};
use crate::text::{is_one_text, parses_to_one};
use crate::validate::validate_spec;

verus! {

/// A user action.  Every button the view dispatcher offers requests one of
/// these; submitting the entry buffer is one of them.
#[derive(Clone, Copy, Debug, PartialEq, Eq, Structural)]
pub enum Action {
    /// Return to the main menu.
    GoHome,
    /// Draw a random trivia question (both the menu button and the
    /// "already answered" reroll).
    StartTrivia,
    /// Open the person-selection menu.
    GoChoosePerson,
    /// Open this person's screen.
    PickPerson(Person),
    /// Pick the multiple-choice answer at this index.
    Choose(usize),
    /// Submit the entry buffer to the current screen's grading rule.
    Submit,
}

/// The screen produced by submitting `text` on Miguel's circuit question:
/// an answer denoting exactly one earns five drinks to give out; any other
/// text, a parse failure included, is the fixed three-drink penalty.  The
/// reading of the answer is the exact decimal rule of `is_one_text`: see
/// its note on what a binary-float reading would additionally accept.
pub open spec fn miguel_spec(text: Seq<char>) -> State {
    if is_one_text(text) {
        State::GiveDrinks(5)
    } else {
        State::Drink { correct: false, count: 3 }
    }
}

/// Grades Miguel's circuit answer.  A parse failure is not an error: it is
/// the wrong-answer outcome.
pub fn miguel_submit(text: &str) -> (r: State)
    ensures
        r == miguel_spec(text@),
{
    if parses_to_one(text) {
        State::GiveDrinks(5)
    } else {
        State::Drink { correct: false, count: 3 }
    }
}

/// What the screen after applying `action` to `state` must be, with the
/// entry buffer holding `entry`.  Only the trivia draw is left open, and
/// only up to which bank item was drawn; everything else is deterministic.
/// Unrecognized combinations leave the screen as it is, so the transition
/// relation is total.
pub open spec fn transition_ok(state: State, action: Action, entry: Seq<char>, next: State) -> bool {
    match action {
        Action::GoHome => next == State::Home,
        Action::StartTrivia => next matches State::Trivia(t) && (exists|i: int|
            0 <= i < BANK_LEN && bank::item_spec_ok(i, t)),
        Action::GoChoosePerson => next == State::ChoosePerson,
        Action::PickPerson(p) => next == State::Unique(p),
        Action::Choose(i) => match state {
            State::Trivia(Trivia::MultipleChoice { question, choices }) => if i < choices@.len() {
                next == choices@[i as int].1
            } else {
                next == state
            },
            _ => next == state,
        },
        Action::Submit => match state {
            State::Trivia(Trivia::ShortAnswer { question, validate }) => next == validate_spec(
                validate,
                entry,
            ),
            State::Unique(p) => if p == Person::Miguel {
                next == miguel_spec(entry)
            } else {
                next == state
            },
            _ => next == state,
        },
    }
}

/// Applies a user action to the current screen, wholesale, and returns the
/// replacement screen.
pub fn resolve(state: State, action: Action, entry: &str) -> (next: State)
    ensures
        transition_ok(state, action, entry@, next),
{
    match action {
        Action::GoHome => State::Home,
        Action::StartTrivia => State::Trivia(bank::random_trivia()),
        Action::GoChoosePerson => State::ChoosePerson,
        Action::PickPerson(p) => State::Unique(p),
        Action::Choose(i) => match state {
            State::Trivia(t) => {
                let in_range = match &t {
                    Trivia::MultipleChoice { question: _, choices } => i < choices.len(),
                    Trivia::ShortAnswer { .. } => false,
                };
                if in_range {
                    t.evaluate_choice(i)
                } else {
                    State::Trivia(t)
                }
            },
            other => other,
        },
        Action::Submit => match state {
            State::Trivia(t) => {
                let takes_text = match &t {
                    Trivia::ShortAnswer { .. } => true,
                    Trivia::MultipleChoice { .. } => false,
                };
                if takes_text {
                    t.evaluate_text(entry)
                } else {
                    State::Trivia(t)
                }
            },
            State::Unique(p) => if p == Person::Miguel {
                miguel_submit(entry)
            } else {
                State::Unique(p)
            },
            other => other,
        },
    }
}

/// An inbound operation from the rendering layer: replace the screen, or
/// replace the entry buffer.  No other mutation path exists.
#[derive(Debug)]
pub enum Msg {
    SetState(State),
    Entry(String),
}

/// The whole application state: the current screen, and the transient text
/// of the not-yet-submitted free-text answer.
#[derive(Debug)]
pub struct Model {
    pub state: State,
    pub entry: String,
}

impl Model {
    /// The initial model: the main menu, with an empty entry buffer.
    pub fn create() -> (m: Model)
        ensures
            m.state == State::Home,
            m.entry@ == Seq::<char>::empty(),
    {
        Model { state: State::Home, entry: String::new() }
    }

    /// Applies one inbound operation; both replace their target wholesale.
    /// Always requests a re-render.
    pub fn update(&mut self, msg: Msg) -> (render: bool)
        ensures
            render,
            msg matches Msg::SetState(s) ==> final(self).state == s && final(self).entry == old(
                self,
            ).entry,
            msg matches Msg::Entry(e) ==> final(self).entry == e && final(self).state == old(
                self,
            ).state,
    {
        match msg {
            Msg::SetState(s) => {
                self.state = s;
            },
            Msg::Entry(e) => {
                self.entry = e;
            },
        }
        true
    }

    /// Applies a user action to the current screen, reading the entry
    /// buffer for submissions.  The buffer itself is kept.
    pub fn apply(&mut self, action: Action)
        ensures
            transition_ok(old(self).state, action, old(self).entry@, final(self).state),
            final(self).entry == old(self).entry,
    {
        let mut taken = State::Home;
        core::mem::swap(&mut taken, &mut self.state);
        let next = resolve(taken, action, self.entry.as_str());
        self.state = next;
    }
}

} // verus!
