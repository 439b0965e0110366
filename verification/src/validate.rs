use vstd::prelude::*;

use crate::state::{State, Trivia, Validator};
use crate::text::{chars_of, contains_chars, contains_spec, eq_chars, lower_chars, lower_spec,
    trim_chars, trim_spec};

verus! {

/// The answer the tattoo question accepts, lower-cased.
pub open spec fn grace_needle() -> Seq<char> {
    seq!['g', 'r', 'a', 'c', 'e']
}

/// One of the two words the Java Virtual Machine question accepts.
pub open spec fn name_needle() -> Seq<char> {
    seq!['n', 'a', 'm', 'e']
}

/// One of the two words the Java Virtual Machine question accepts.
pub open spec fn last_needle() -> Seq<char> {
    seq!['l', 'a', 's', 't']
}

/// One of the two words the wooing question accepts.
pub open spec fn frulam_needle() -> Seq<char> {
    seq!['f', 'r', 'u', 'l', 'a', 'm']
}

/// One of the two words the wooing question accepts.
pub open spec fn mondath_needle() -> Seq<char> {
    seq!['m', 'o', 'n', 'd', 'a', 't', 'h']
}

/// One of the two words the senior-design question accepts.
pub open spec fn human_needle() -> Seq<char> {
    seq!['h', 'u', 'm', 'a', 'n']
}

/// One of the two words the senior-design question accepts.
pub open spec fn keyboard_needle() -> Seq<char> {
    seq!['k', 'e', 'y', 'b', 'o', 'a', 'r', 'd']
}

/// The screen each grading rule produces for the given raw answer text.
/// Every rule is total: unrecognized input falls through to its default
/// outcome, never to an error.
pub open spec fn validate_spec(v: Validator, text: Seq<char>) -> State {
    match v {
        Validator::GraceTattoo => if lower_spec(trim_spec(text)) == grace_needle() {
            State::drink_from_spec(1)
        } else {
            State::drink_from_spec(3)
        },
        Validator::JvmPhrase => if contains_spec(lower_spec(text), name_needle())
            || contains_spec(lower_spec(text), last_needle()) {
            State::GiveDrinks(4)
        } else {
            State::drink_from_spec(2)
        },
        Validator::JesusWoo => if contains_spec(lower_spec(text), frulam_needle())
            || contains_spec(lower_spec(text), mondath_needle()) {
            State::GiveDrinks(3)
        } else {
            State::drink_from_spec(3)
        },
        Validator::SeniorDesign => if contains_spec(lower_spec(text), human_needle())
            || contains_spec(lower_spec(text), keyboard_needle()) {
            State::GiveDrinks(3)
        } else {
            State::drink_from_spec(3)
        },
    }
}

impl Validator {
    /// Grades the raw submitted text and returns the next screen.
    pub fn evaluate(&self, text: &str) -> (r: State)
        ensures
            r == validate_spec(*self, text@),
    {
        let cs = chars_of(text);
        match self {
            Validator::GraceTattoo => {
                let t = trim_chars(&cs);
                let l = lower_chars(&t);
                let needle = chars_of("grace");
                proof {
                    reveal_strlit("grace");
                    assert(needle@ =~= grace_needle());
                }
                if eq_chars(&l, &needle) {
                    State::from(1)
                } else {
                    State::from(3)
                }
            }
            Validator::JvmPhrase => {
                let l = lower_chars(&cs);
                let name = chars_of("name");
                let last = chars_of("last");
                proof {
                    reveal_strlit("name");
                    reveal_strlit("last");
                    assert(name@ =~= name_needle());
                    assert(last@ =~= last_needle());
                }
                if contains_chars(&l, &name) || contains_chars(&l, &last) {
                    State::GiveDrinks(4)
                } else {
                    State::from(2)
                }
            }
            Validator::JesusWoo => {
                let l = lower_chars(&cs);
                let frulam = chars_of("frulam");
                let mondath = chars_of("mondath");
                proof {
                    reveal_strlit("frulam");
                    reveal_strlit("mondath");
                    assert(frulam@ =~= frulam_needle());
                    assert(mondath@ =~= mondath_needle());
                }
                if contains_chars(&l, &frulam) || contains_chars(&l, &mondath) {
                    State::GiveDrinks(3)
                } else {
                    State::from(3)
                }
            }
            Validator::SeniorDesign => {
                let l = lower_chars(&cs);
                let human = chars_of("human");
                let keyboard = chars_of("keyboard");
                proof {
                    reveal_strlit("human");
                    reveal_strlit("keyboard");
                    assert(human@ =~= human_needle());
                    assert(keyboard@ =~= keyboard_needle());
                }
                if contains_chars(&l, &human) || contains_chars(&l, &keyboard) {
                    State::GiveDrinks(3)
                } else {
                    State::from(3)
                }
            }
        }
    }
}

impl Trivia {
    /// Multiple-choice grading is a direct lookup, not a computation:
    /// picking index `i` yields exactly the screen stored at index `i` of
    /// the choices, unchanged.
    pub fn evaluate_choice(self, i: usize) -> (r: State)
        requires
            self matches Trivia::MultipleChoice { question, choices } && i < choices@.len(),
        ensures
            self matches Trivia::MultipleChoice { question, choices } ==> r == choices@[
                i as int
            ].1,
    {
        match self {
            Trivia::MultipleChoice { question: _, mut choices } => {
                let (_label, chosen) = choices.remove(i);
                chosen
            },
            Trivia::ShortAnswer { .. } => vstd::pervasive::unreached(),
        }
    }

    /// Free-text grading invokes the stored rule on the raw, untrimmed
    /// text; the rule itself does any trimming and casing.
    pub fn evaluate_text(&self, text: &str) -> (r: State)
        requires
            self matches Trivia::ShortAnswer { question, validate },
        ensures
            self matches Trivia::ShortAnswer { question, validate } ==> r == validate_spec(
                *validate,
                text@,
            ),
    {
        match self {
            Trivia::ShortAnswer { question: _, validate } => validate.evaluate(text),
            Trivia::MultipleChoice { .. } => vstd::pervasive::unreached(),
        }
    }
}

/// Law: the Java Virtual Machine rule hands out four drinks exactly when the
/// lower-cased answer mentions "name" or "last"; every other answer routes
/// through the drink-count conversion of two, an outcome marked wrong.
pub proof fn lemma_jvm_rule(text: Seq<char>)
    ensures
        (contains_spec(lower_spec(text), name_needle()) || contains_spec(
            lower_spec(text),
            last_needle(),
        )) <==> validate_spec(Validator::JvmPhrase, text) == State::GiveDrinks(4),
        validate_spec(Validator::JvmPhrase, text) != State::GiveDrinks(4) ==> validate_spec(
            Validator::JvmPhrase,
            text,
        ) == (State::Drink { correct: false, count: 2 }),
{
}

} // verus!
