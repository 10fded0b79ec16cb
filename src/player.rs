use vstd::prelude::*;

verus! {

/// A participant of the game. Players are told apart by their sign alone.
#[derive(Debug)]
pub struct Player {
    pub name: String,
    pub sign: char,
}

impl Player {
    pub fn new(name: &str, sign: char) -> (r: Player)
        ensures
            r.name@ == name@,
            r.sign == sign,
    {
        Player { name: name.to_owned(), sign }
    }
}

impl PartialEq for Player {
    fn eq(&self, other: &Player) -> (r: bool) {
        self.sign == other.sign
    }
}

impl vstd::std_specs::cmp::PartialEqSpecImpl for Player {
    open spec fn obeys_eq_spec() -> bool {
        true
    }

    open spec fn eq_spec(&self, other: &Player) -> bool {
        self.sign == other.sign
    }
}

impl Eq for Player {}

/// A player equals the character of its sign.
impl PartialEq<char> for Player {
    fn eq(&self, other: &char) -> (r: bool) {
        self.sign == *other
    }
}

impl vstd::std_specs::cmp::PartialEqSpecImpl<char> for Player {
    open spec fn obeys_eq_spec() -> bool {
        true
    }

    open spec fn eq_spec(&self, other: &char) -> bool {
        self.sign == *other
    }
}

} // verus!
