use vstd::prelude::*;

use crate::person::Person;

verus! {

/// A grading rule for a free-text trivia question: a total function from the
/// raw submitted text to the next screen.  The rules form a closed set,
/// constructed once when the content bank is built and shared by value.
#[derive(Clone, Copy, Debug, PartialEq, Eq, Structural)]
pub enum Validator {
    /// Accepts "grace" (trimmed, case-insensitively).
    GraceTattoo,
    /// Accepts any answer mentioning "name" or "last" (case-insensitively).
    JvmPhrase,
    /// Accepts any answer mentioning "frulam" or "mondath" (case-insensitively).
    JesusWoo,
    /// Accepts any answer mentioning "human" or "keyboard" (case-insensitively).
    SeniorDesign,
}

/// A screen entirely defined by its own render strategy: the escape hatch by
/// which a content item overrides the normal render protocol.  Each variant
/// is one such strategy; instances are plain values, freely shared.
#[derive(Clone, Copy, Debug, PartialEq, Eq, Structural)]
pub enum GenericScreen {
    /// The screen behind every choice of the "completely alone" question.
    KaiAlone,
}

/// A trivia item: a question plus its answer-to-next-screen rule.
#[derive(Debug, PartialEq)]
pub enum Trivia {
    /// An ordered list of answers; picking one yields the screen stored
    /// beside its label.  The order is the display order.
    MultipleChoice { question: String, choices: Vec<(String, State)> },
    /// A free-text question graded by `validate`.
    ShortAnswer { question: String, validate: Validator },
}

/// The single current-screen value.  Every transition replaces it wholesale.
#[derive(Debug, PartialEq)]
pub enum State {
    /// The main menu.
    Home,
    /// An active trivia question, held by value as a snapshot.
    Trivia(Trivia),
    /// The person-selection menu.
    ChoosePerson,
    /// The chosen person's personalized screen.
    Unique(Person),
    /// An outcome screen: take `count` drinks, framed by whether the answer
    /// was correct.
    Drink { correct: bool, count: usize },
    /// An outcome screen for a correct answer: give out `count` drinks.
    GiveDrinks(usize),
    /// A screen rendered by its own strategy, outside the normal protocol.
    Generic(GenericScreen),
}

impl State {
    /// The outcome screen obtained from a bare drink count: counts of zero or
    /// one are the reward path and are marked correct, counts of two or more
    /// are the penalty path.
    pub open spec fn drink_from_spec(count: usize) -> State {
        State::Drink { correct: count <= 1, count }
    }

    /// Wraps a render strategy as a screen.
    pub fn generic(g: GenericScreen) -> (r: State)
        ensures
            r == State::Generic(g),
    {
        State::Generic(g)
    }
}

impl Trivia {
    /// Builds a multiple-choice item from its question and its ordered
    /// choices; the order given is the display order.
    pub fn multiple_choice(question: String, choices: Vec<(String, State)>) -> (t: Trivia)
        ensures
            t == (Trivia::MultipleChoice { question, choices }),
    {
        Trivia::MultipleChoice { question, choices }
    }

    /// Builds a free-text item from its question and its grading rule.
    pub fn short_answer(question: String, validate: Validator) -> (t: Trivia)
        ensures
            t == (Trivia::ShortAnswer { question, validate }),
    {
        Trivia::ShortAnswer { question, validate }
    }
}

impl From<usize> for State {
    /// The drink-count conversion: see `State::drink_from_spec`.
    fn from(count: usize) -> (r: State)
        ensures
            r == State::drink_from_spec(count),
    {
        State::Drink { correct: count <= 1, count }
    }
}

impl vstd::std_specs::convert::FromSpecImpl<usize> for State {
    open spec fn obeys_from_spec() -> bool {
        true
    }

    open spec fn from_spec(count: usize) -> State {
        State::drink_from_spec(count)
    }
}

/// Law: the drink-count conversion marks the outcome correct exactly when the
/// count is zero or one, and keeps the count unchanged.
pub proof fn lemma_drink_conversion_correct(count: usize)
    ensures
        State::drink_from_spec(count) matches State::Drink { correct, count: c }
            && correct == (count == 0 || count == 1) && c == count,
{
}

} // verus!
