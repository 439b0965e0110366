use vstd::prelude::*;
use vstd::string::StringExecFns;

use crate::machine::Action;
use crate::person::Person;
use crate::state::{GenericScreen, State, Trivia};
use crate::text::{dec_spec, usize_string};

verus! {

/// One selectable action: a button label and the action it requests.
#[derive(Debug)]
pub struct ActionItem {
    pub label: String,
    pub act: Action,
}

/// A pure description of what the front end should show for a screen:
/// lines of text, buttons, and whether a free-text entry field is offered.
/// Every button is a request to apply its action to the current screen.
#[derive(Debug)]
pub struct RenderDesc {
    pub lines: Vec<String>,
    pub actions: Vec<ActionItem>,
    pub input: bool,
}

/// Whether the description's only action is the button home.
pub open spec fn home_only_actions(r: RenderDesc) -> bool {
    &&& r.actions@.len() == 1
    &&& r.actions@[0].label@ == "Home"@
    &&& r.actions@[0].act == Action::GoHome
}

/// The text of a take-drinks outcome line.
pub open spec fn drink_line_spec(correct: bool, count: usize) -> Seq<char> {
    (if correct {
        "Correct! Take only "@
    } else {
        "Wrong! Take "@
    }) + dec_spec(count as int) + (if count == 1 {
        " drink!"@
    } else {
        " drinks!"@
    })
}

/// The text of a give-out-drinks outcome line.
pub open spec fn give_line_spec(count: usize) -> Seq<char> {
    "Correct! Give out "@ + dec_spec(count as int) + (if count == 1 {
        " drink!"@
    } else {
        " drinks!"@
    })
}

/// What the screen of the one render strategy shows.
pub open spec fn kai_alone_ok(r: RenderDesc) -> bool {
    &&& r.lines@.len() == 1
    &&& r.lines@[0]@ == "Give Kai 5 drinks to help dull his need for companionship."@
    &&& home_only_actions(r)
    &&& !r.input
}

/// What each render strategy shows.
pub open spec fn generic_ok(g: GenericScreen, r: RenderDesc) -> bool {
    match g {
        GenericScreen::KaiAlone => kai_alone_ok(r),
    }
}

/// What each person's personalized screen shows.  All of them are static
/// instructional text except Miguel's, which asks for a numeric answer.
pub open spec fn unique_ok(p: Person, r: RenderDesc) -> bool {
    match p {
        Person::Carl => {
            &&& r.lines@.len() == 2
            &&& r.lines@[0]@ == "Escuzi! Bopity boopy!"@
            &&& r.lines@[1]@
                == "Take 3 drinks while doing an Italian gesture with your free hand."@
            &&& home_only_actions(r)
            &&& !r.input
        },
        Person::Isaac => {
            &&& r.lines@.len() == 1
            &&& r.lines@[0]@
                == "Do some pushups, then take a number of drinks equal to forty minus how many pushups you did. If you do more than forty, you may give out drinks."@
            &&& home_only_actions(r)
            &&& !r.input
        },
        Person::Kai => {
            &&& r.lines@.len() == 1
            &&& r.lines@[0]@
                == "Have a conversation with Miguel in Spanish. Miguel may decide how many drinks you take based on how good your pronunciation, grammar, and comprehension are."@
            &&& home_only_actions(r)
            &&& !r.input
        },
        Person::Miguel => {
            &&& r.lines@.len() == 3
            &&& r.lines@[0]@ == "In the circuit shown below R2 = 2 kÎ©."@
            &&& r.lines@[1]@ == "Assume that the op-amp is ideal."@
            &&& r.lines@[2]@
                == "Determine the value of R1 so that the closed-loop gain, G = vO / vS = 3."@
            &&& r.actions@.len() == 2
            &&& r.actions@[0].label@ == "Submit"@
            &&& r.actions@[0].act == Action::Submit
            &&& r.actions@[1].label@ == "Home"@
            &&& r.actions@[1].act == Action::GoHome
            &&& r.input
        },
        Person::Savannah => {
            &&& r.lines@.len() == 1
            &&& r.lines@[0]@
                == "Come up with familial relations that relate all of the other players, i.e. Miguel is Carl's dad. For the rest of the game, other players must speak to eachother as if they are actually related in the way you define. Anyone who does not adhear must drink."@
            &&& home_only_actions(r)
            &&& !r.input
        },
        Person::Guest => {
            &&& r.lines@.len() == 1
            &&& r.lines@[0]@
                == "The five founders of Savisaac Migkairl stand and look down on you while you take 5 drinks."@
            &&& home_only_actions(r)
            &&& !r.input
        },
    }
}

/// What the view dispatcher must show for each screen.
pub open spec fn render_ok(state: State, r: RenderDesc) -> bool {
    match state {
        State::Home => {
            &&& r.lines@.len() == 1
            &&& r.lines@[0]@ == "Savisaac Migkairl!"@
            &&& r.actions@.len() == 2
            &&& r.actions@[0].label@ == "Trivia"@
            &&& r.actions@[0].act == Action::StartTrivia
            &&& r.actions@[1].label@ == "Unique"@
            &&& r.actions@[1].act == Action::GoChoosePerson
            &&& !r.input
        },
        State::Trivia(t) => match t {
            Trivia::MultipleChoice { question, choices } => {
                &&& r.lines@.len() == 1
                &&& r.lines@[0] == question
                &&& r.actions@.len() == choices@.len() + 2
                &&& (forall|j: int| #![all_triggers] 0 <= j < choices@.len()
                    ==> r.actions@[j].label == choices@[j].0
                        && r.actions@[j].act == Action::Choose(j as usize))
                &&& r.actions@[choices@.len() as int].label@
                    == "This question was already answered"@
                &&& r.actions@[choices@.len() as int].act == Action::StartTrivia
                &&& r.actions@[choices@.len() as int + 1].label@ == "Home"@
                &&& r.actions@[choices@.len() as int + 1].act == Action::GoHome
                &&& !r.input
            },
            Trivia::ShortAnswer { question, validate } => {
                &&& r.lines@.len() == 1
                &&& r.lines@[0] == question
                &&& r.actions@.len() == 3
                &&& r.actions@[0].label@ == "Submit"@
                &&& r.actions@[0].act == Action::Submit
                &&& r.actions@[1].label@ == "This question was already answered"@
                &&& r.actions@[1].act == Action::StartTrivia
                &&& r.actions@[2].label@ == "Home"@
                &&& r.actions@[2].act == Action::GoHome
                &&& r.input
            },
        },
        State::ChoosePerson => {
            &&& r.lines@.len() == 1
            &&& r.lines@[0]@ == "Who are you?"@
            &&& r.actions@.len() == 7
            &&& r.actions@[0].label@ == Person::Carl.name_spec()
            &&& r.actions@[0].act == Action::PickPerson(Person::Carl)
            &&& r.actions@[1].label@ == Person::Isaac.name_spec()
            &&& r.actions@[1].act == Action::PickPerson(Person::Isaac)
            &&& r.actions@[2].label@ == Person::Kai.name_spec()
            &&& r.actions@[2].act == Action::PickPerson(Person::Kai)
            &&& r.actions@[3].label@ == Person::Miguel.name_spec()
            &&& r.actions@[3].act == Action::PickPerson(Person::Miguel)
            &&& r.actions@[4].label@ == Person::Savannah.name_spec()
            &&& r.actions@[4].act == Action::PickPerson(Person::Savannah)
            &&& r.actions@[5].label@ == Person::Guest.name_spec()
            &&& r.actions@[5].act == Action::PickPerson(Person::Guest)
            &&& r.actions@[6].label@ == "Home"@
            &&& r.actions@[6].act == Action::GoHome
            &&& !r.input
        },
        State::Unique(p) => unique_ok(p, r),
        State::Drink { correct, count } => {
            &&& r.lines@.len() == 1
            &&& r.lines@[0]@ == drink_line_spec(correct, count)
            &&& home_only_actions(r)
            &&& !r.input
        },
        State::GiveDrinks(count) => {
            &&& r.lines@.len() == 1
            &&& r.lines@[0]@ == give_line_spec(count)
            &&& home_only_actions(r)
            &&& !r.input
        },
        State::Generic(g) => generic_ok(g, r),
    }
}

/// A home button.
fn home_action() -> (a: ActionItem)
    ensures
        a.label@ == "Home"@,
        a.act == Action::GoHome,
{
    ActionItem { label: "Home".to_owned(), act: Action::GoHome }
}

impl GenericScreen {
    /// Produces this strategy's whole screen, outside the normal protocol.
    pub fn render_screen(&self) -> (r: RenderDesc)
        ensures
            generic_ok(*self, r),
    {
        match self {
            GenericScreen::KaiAlone => {
                let mut lines: Vec<String> = Vec::new();
                lines.push("Give Kai 5 drinks to help dull his need for companionship.".to_owned());
                let mut actions: Vec<ActionItem> = Vec::new();
                actions.push(home_action());
                RenderDesc { lines, actions, input: false }
            },
        }
    }
}

/// The view dispatcher: maps the current screen to what should be shown and
/// which actions are available.  It never changes the screen; a screen with
/// its own render strategy is delegated to that strategy wholesale.
pub fn render(state: &State) -> (r: RenderDesc)
    ensures
        render_ok(*state, r),
{
    match state {
        State::Home => {
            let mut lines: Vec<String> = Vec::new();
            lines.push("Savisaac Migkairl!".to_owned());
            let mut actions: Vec<ActionItem> = Vec::new();
            actions.push(ActionItem { label: "Trivia".to_owned(), act: Action::StartTrivia });
            actions.push(ActionItem { label: "Unique".to_owned(), act: Action::GoChoosePerson });
            RenderDesc { lines, actions, input: false }
        },
        State::Trivia(t) => match t {
            Trivia::MultipleChoice { question, choices } => {
                let mut lines: Vec<String> = Vec::new();
                lines.push(question.clone());
                let mut actions: Vec<ActionItem> = Vec::new();
                let mut j: usize = 0;
                while j < choices.len()
                    invariant
                        j <= choices@.len(),
                        actions@.len() == j,
                        forall|k: int| #![all_triggers] 0 <= k < j
                            ==> actions@[k].label == choices@[k].0
                                && actions@[k].act == Action::Choose(k as usize),
                    decreases choices@.len() - j,
                {
                    actions.push(ActionItem { label: choices[j].0.clone(), act: Action::Choose(j) });
                    j = j + 1;
                }
                actions.push(
                    ActionItem {
                        label: "This question was already answered".to_owned(),
                        act: Action::StartTrivia,
                    },
                );
                actions.push(home_action());
                RenderDesc { lines, actions, input: false }
            },
            Trivia::ShortAnswer { question, validate: _ } => {
                let mut lines: Vec<String> = Vec::new();
                lines.push(question.clone());
                let mut actions: Vec<ActionItem> = Vec::new();
                actions.push(ActionItem { label: "Submit".to_owned(), act: Action::Submit });
                actions.push(
                    ActionItem {
                        label: "This question was already answered".to_owned(),
                        act: Action::StartTrivia,
                    },
                );
                actions.push(home_action());
                RenderDesc { lines, actions, input: true }
            },
        },
        State::ChoosePerson => {
            let mut lines: Vec<String> = Vec::new();
            lines.push("Who are you?".to_owned());
            let mut actions: Vec<ActionItem> = Vec::new();
            actions.push(
                ActionItem { label: Person::Carl.name(), act: Action::PickPerson(Person::Carl) },
            );
            actions.push(
                ActionItem { label: Person::Isaac.name(), act: Action::PickPerson(Person::Isaac) },
            );
            actions.push(
                ActionItem { label: Person::Kai.name(), act: Action::PickPerson(Person::Kai) },
            );
            actions.push(
                ActionItem {
                    label: Person::Miguel.name(),
                    act: Action::PickPerson(Person::Miguel),
                },
            );
            actions.push(
                ActionItem {
                    label: Person::Savannah.name(),
                    act: Action::PickPerson(Person::Savannah),
                },
            );
            actions.push(
                ActionItem { label: Person::Guest.name(), act: Action::PickPerson(Person::Guest) },
            );
            actions.push(home_action());
            RenderDesc { lines, actions, input: false }
        },
        State::Unique(p) => {
            let mut lines: Vec<String> = Vec::new();
            let mut actions: Vec<ActionItem> = Vec::new();
            let mut input = false;
            match p {
                Person::Carl => {
                    lines.push("Escuzi! Bopity boopy!".to_owned());
                    lines.push(
                        "Take 3 drinks while doing an Italian gesture with your free hand."
                            .to_owned(),
                    );
                    actions.push(home_action());
                },
                Person::Isaac => {
                    lines.push(
                        "Do some pushups, then take a number of drinks equal to forty minus how many pushups you did. If you do more than forty, you may give out drinks."
                            .to_owned(),
                    );
                    actions.push(home_action());
                },
                Person::Kai => {
                    lines.push(
                        "Have a conversation with Miguel in Spanish. Miguel may decide how many drinks you take based on how good your pronunciation, grammar, and comprehension are."
                            .to_owned(),
                    );
                    actions.push(home_action());
                },
                Person::Miguel => {
                    lines.push("In the circuit shown below R2 = 2 kÎ©.".to_owned());
                    lines.push("Assume that the op-amp is ideal.".to_owned());
                    lines.push(
                        "Determine the value of R1 so that the closed-loop gain, G = vO / vS = 3."
                            .to_owned(),
                    );
                    actions.push(ActionItem { label: "Submit".to_owned(), act: Action::Submit });
                    actions.push(home_action());
                    input = true;
                },
                Person::Savannah => {
                    lines.push(
                        "Come up with familial relations that relate all of the other players, i.e. Miguel is Carl's dad. For the rest of the game, other players must speak to eachother as if they are actually related in the way you define. Anyone who does not adhear must drink."
                            .to_owned(),
                    );
                    actions.push(home_action());
                },
                Person::Guest => {
                    lines.push(
                        "The five founders of Savisaac Migkairl stand and look down on you while you take 5 drinks."
                            .to_owned(),
                    );
                    actions.push(home_action());
                },
            }
            RenderDesc { lines, actions, input }
        },
        State::Drink { correct, count } => {
            let mut line = if *correct {
                "Correct! Take only ".to_owned()
            } else {
                "Wrong! Take ".to_owned()
            };
            let num = usize_string(*count);
            line.append(num.as_str());
            line.append(
                if *count == 1 {
                    " drink!"
                } else {
                    " drinks!"
                },
            );
            let mut lines: Vec<String> = Vec::new();
            lines.push(line);
            let mut actions: Vec<ActionItem> = Vec::new();
            actions.push(home_action());
            RenderDesc { lines, actions, input: false }
        },
        State::GiveDrinks(count) => {
            let mut line = "Correct! Give out ".to_owned();
            let num = usize_string(*count);
            line.append(num.as_str());
            line.append(
                if *count == 1 {
                    " drink!"
                } else {
                    " drinks!"
                },
            );
            let mut lines: Vec<String> = Vec::new();
            lines.push(line);
            let mut actions: Vec<ActionItem> = Vec::new();
            actions.push(home_action());
            RenderDesc { lines, actions, input: false }
        },
        State::Generic(g) => g.render_screen(),
    }
}

/// Law: no screen strands the player.  Either the screen is the main menu
/// already, or its description offers the home action, which the transition
/// protocol sends straight home whatever the entry buffer holds: home is at
/// most one action away.
pub proof fn lemma_home_within_one_action(state: State, r: RenderDesc)
    requires
        render_ok(state, r),
    ensures
        state == State::Home || exists|j: int|
            0 <= j < r.actions@.len() && r.actions@[j].act == Action::GoHome,
        forall|entry: Seq<char>|
            crate::machine::transition_ok(state, Action::GoHome, entry, State::Home),
{
    match state {
        State::Home => {
        },
        State::Trivia(t) => match t {
            Trivia::MultipleChoice { question, choices } => {
                assert(r.actions@[choices@.len() as int + 1].act == Action::GoHome);
            },
            Trivia::ShortAnswer { .. } => {
                assert(r.actions@[2].act == Action::GoHome);
            },
        },
        State::ChoosePerson => {
            assert(r.actions@[6].act == Action::GoHome);
        },
        State::Unique(p) => match p {
            Person::Miguel => {
                assert(r.actions@[1].act == Action::GoHome);
            },
            _ => {
                assert(r.actions@[0].act == Action::GoHome);
            },
        },
        State::Drink { .. } => {
            assert(r.actions@[0].act == Action::GoHome);
        },
        State::GiveDrinks(_) => {
            assert(r.actions@[0].act == Action::GoHome);
        },
        State::Generic(g) => {
            assert(r.actions@[0].act == Action::GoHome);
        },
    }
}

} // verus!
