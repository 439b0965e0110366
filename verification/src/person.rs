use vstd::prelude::*;

verus! {

/// The closed set of players the game knows.  A `Person` is only a label and
/// the lookup key for that player's personalized screen.
#[derive(Clone, Copy, Debug, PartialEq, Eq, Structural)]
pub enum Person {
    Savannah,
    Isaac,
    Miguel,
    Kai,
    Carl,
    Guest,
}

impl Person {
    /// The display name of this person.
    pub open spec fn name_spec(self) -> Seq<char> {
        match self {
            Person::Savannah => "Savannah"@,
            Person::Isaac => "Isaac"@,
            Person::Miguel => "Miguel"@,
            Person::Kai => "Kai"@,
            Person::Carl => "Carl"@,
            Person::Guest => "Guest"@,
        }
    }

    /// The display name of this person, as shown on the person-selection screen.
    pub fn name(&self) -> (r: String)
        ensures
            r@ == self.name_spec(),
    {
        match self {
            Person::Savannah => "Savannah".to_owned(),
            Person::Isaac => "Isaac".to_owned(),
            Person::Miguel => "Miguel".to_owned(),
            Person::Kai => "Kai".to_owned(),
            Person::Carl => "Carl".to_owned(),
            Person::Guest => "Guest".to_owned(),
        }
    }
}

} // verus!
