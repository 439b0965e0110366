//! A single-player party-game engine: a finite set of screens (home menu,
//! trivia questions, personalized prompts, drink-count outcomes) driven by a
//! state machine.  The current screen is a single `State` value; user actions
//! produce the next `State`; a pure view dispatcher maps each `State` to a
//! render description that an unverified front end can show.

pub mod bank;
pub mod machine;
pub mod person;
pub mod render;
pub mod state;
pub mod text;
pub mod validate;
