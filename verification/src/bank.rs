use vstd::prelude::*;

use crate::person::Person;
use crate::state::{GenericScreen, State, Trivia, Validator};

verus! {

/// How many trivia items the content bank holds.  The bank is fixed content,
/// never empty: random selection is always defined.
pub const BANK_LEN: usize = 8;

/// What the trivia item at index `i` of the bank is.  The order of the
/// choices of each item is its display order and is meaningful.
pub open spec fn item_spec_ok(i: int, t: Trivia) -> bool {
    if i == 0 {
        t matches Trivia::MultipleChoice { question, choices }
            && question@ == "Which Evan is \"Black Evan\"?"@
            && choices@.len() == 2
            && choices@[0].0@ == "Evan Holmes"@
            && choices@[0].1 == State::drink_from_spec(4)
            && choices@[1].0@ == "Evan Hoerl"@
            && choices@[1].1 == State::drink_from_spec(1)
    } else if i == 1 {
        t matches Trivia::MultipleChoice { question, choices }
            && question@ == "What was Waffles' very first transformation?"@
            && choices@.len() == 5
            && choices@[0].0@ == "Giant Toad"@
            && choices@[0].1 == State::drink_from_spec(3)
            && choices@[1].0@ == "Snake"@
            && choices@[1].1 == State::drink_from_spec(4)
            && choices@[2].0@ == "Bear"@
            && choices@[2].1 == State::drink_from_spec(1)
            && choices@[3].0@ == "Swarm of Fleas"@
            && choices@[3].1 == State::drink_from_spec(4)
            && choices@[4].0@ == "Veloceraptor"@
            && choices@[4].1 == State::drink_from_spec(5)
    } else if i == 2 {
        t matches Trivia::MultipleChoice { question, choices }
            && question@ == "Who came up with the name \"Savisaac Migkairl\"?"@
            && choices@.len() == 5
            && choices@[0].0@ == Person::Carl.name_spec()
            && choices@[0].1 == State::drink_from_spec(3)
            && choices@[1].0@ == Person::Isaac.name_spec()
            && choices@[1].1 == State::drink_from_spec(3)
            && choices@[2].0@ == Person::Kai.name_spec()
            && choices@[2].1 == State::drink_from_spec(1)
            && choices@[3].0@ == Person::Miguel.name_spec()
            && choices@[3].1 == State::drink_from_spec(3)
            && choices@[4].0@ == Person::Savannah.name_spec()
            && choices@[4].1 == State::drink_from_spec(3)
    } else if i == 3 {
        t matches Trivia::ShortAnswer { question, validate }
            && question@
                == "Savannah has a mountain tattoo which is very similar to that of who?"@
            && validate == Validator::GraceTattoo
    } else if i == 4 {
        t matches Trivia::ShortAnswer { question, validate }
            && question@
                == "What is the significance of the phrase \"Santa Clara Java Virtual Machine\"?"@
            && validate == Validator::JvmPhrase
    } else if i == 5 {
        t matches Trivia::ShortAnswer { question, validate }
            && question@ == "Who did Jesus fail to woo?"@
            && validate == Validator::JesusWoo
    } else if i == 6 {
        t matches Trivia::ShortAnswer { question, validate }
            && question@
                == "Which stupid senior design project beat Isaac, Miguel, Carl, and Evan?"@
            && validate == Validator::SeniorDesign
    } else {
        t matches Trivia::MultipleChoice { question, choices }
            && question@ == "Who is completely and uterly alone?"@
            && choices@.len() == 6
            && (forall|j: int| #![all_triggers] 0 <= j < 6 ==> choices@[j].0@ == "Kai"@
                && choices@[j].1 == State::Generic(GenericScreen::KaiAlone))
    }
}

/// Builds the trivia item at index `i` of the bank.
pub fn build_item(i: usize) -> (t: Trivia)
    requires
        i < BANK_LEN,
    ensures
        item_spec_ok(i as int, t),
{
    if i == 0 {
        let mut choices: Vec<(String, State)> = Vec::new();
        choices.push(("Evan Holmes".to_owned(), State::from(4)));
        choices.push(("Evan Hoerl".to_owned(), State::from(1)));
        Trivia::multiple_choice("Which Evan is \"Black Evan\"?".to_owned(), choices)
    } else if i == 1 {
        let mut choices: Vec<(String, State)> = Vec::new();
        choices.push(("Giant Toad".to_owned(), State::from(3)));
        choices.push(("Snake".to_owned(), State::from(4)));
        choices.push(("Bear".to_owned(), State::from(1)));
        choices.push(("Swarm of Fleas".to_owned(), State::from(4)));
        choices.push(("Veloceraptor".to_owned(), State::from(5)));
        Trivia::multiple_choice(
            "What was Waffles' very first transformation?".to_owned(),
            choices,
        )
    } else if i == 2 {
        let mut choices: Vec<(String, State)> = Vec::new();
        choices.push((Person::Carl.name(), State::from(3)));
        choices.push((Person::Isaac.name(), State::from(3)));
        choices.push((Person::Kai.name(), State::from(1)));
        choices.push((Person::Miguel.name(), State::from(3)));
        choices.push((Person::Savannah.name(), State::from(3)));
        Trivia::multiple_choice(
            "Who came up with the name \"Savisaac Migkairl\"?".to_owned(),
            choices,
        )
    } else if i == 3 {
        Trivia::short_answer(
            "Savannah has a mountain tattoo which is very similar to that of who?".to_owned(),
            Validator::GraceTattoo,
        )
    } else if i == 4 {
        Trivia::short_answer(
            "What is the significance of the phrase \"Santa Clara Java Virtual Machine\"?"
                .to_owned(),
            Validator::JvmPhrase,
        )
    } else if i == 5 {
        Trivia::short_answer("Who did Jesus fail to woo?".to_owned(), Validator::JesusWoo)
    } else if i == 6 {
        Trivia::short_answer(
            "Which stupid senior design project beat Isaac, Miguel, Carl, and Evan?".to_owned(),
            Validator::SeniorDesign,
        )
    } else {
        let mut choices: Vec<(String, State)> = Vec::new();
        let mut j: usize = 0;
        while j < 6
            invariant
                j <= 6,
                choices@.len() == j,
                forall|k: int| #![all_triggers] 0 <= k < j ==> choices@[k].0@ == "Kai"@
                    && choices@[k].1 == State::Generic(GenericScreen::KaiAlone),
            decreases 6 - j,
        {
            choices.push(("Kai".to_owned(), State::generic(GenericScreen::KaiAlone)));
            j = j + 1;
        }
        Trivia::multiple_choice("Who is completely and uterly alone?".to_owned(), choices)
    }
}

/// The whole bank, in its fixed order.
pub fn bank_items() -> (items: Vec<Trivia>)
    ensures
        items@.len() == BANK_LEN,
        forall|i: int| 0 <= i < BANK_LEN ==> item_spec_ok(i, #[trigger] items@[i]),
{
    let mut items: Vec<Trivia> = Vec::new();
    let mut i: usize = 0;
    while i < BANK_LEN
        invariant
            i <= BANK_LEN,
            items@.len() == i,
            forall|k: int| 0 <= k < i ==> item_spec_ok(k, #[trigger] items@[k]),
        decreases BANK_LEN - i,
    {
        items.push(build_item(i));
        i = i + 1;
    }
    items
}

/// Relies on rand's `random_range`: returns a value drawn uniformly from the
/// given range, and panics only when the range is empty.
#[verifier::external_body]
fn random_below(n: usize) -> (r: usize)
    requires
        n > 0,
    ensures
        r < n,
{
    rand::random_range(0..n)
}

/// Draws an item from the content bank uniformly at random.  The bank is
/// never empty, so the draw is always defined.
pub fn random_trivia() -> (t: Trivia)
    ensures
        exists|i: int| 0 <= i < BANK_LEN && item_spec_ok(i, t),
{
    let i = random_below(BANK_LEN);
    let t = build_item(i);
    proof {
        assert(item_spec_ok(i as int, t));
    }
    t
}

} // verus!
