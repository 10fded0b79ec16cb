use vstd::prelude::*;

verus! {

/// One command of the terminal front end.
#[derive(Debug, Clone, Copy, PartialEq, Eq, Structural)]
pub enum Input {
    INVALID,
    QUIT,
    MARK,
    LEFT,
    RIGHT,
    DOWN,
    UP,
    NOOP,
}

/// The command bound to a typed character.
pub open spec fn input_of_char(c: char) -> Input {
    if c == 'q' {
        Input::QUIT
    } else if c == ' ' {
        Input::MARK
    } else if c == 'h' {
        Input::LEFT
    } else if c == 'j' {
        Input::DOWN
    } else if c == 'k' {
        Input::UP
    } else if c == 'l' {
        Input::RIGHT
    } else {
        Input::NOOP
    }
}

impl Input {
    /// Maps a typed character to its command (`q` quits, space marks,
    /// `h`/`j`/`k`/`l` move left/down/up/right); any other key does nothing.
    pub fn from_char(c: char) -> (r: Input)
        ensures
            r == input_of_char(c),
    {
        match c {
            'q' => Input::QUIT,
            ' ' => Input::MARK,
            'h' => Input::LEFT,
            'j' => Input::DOWN,
            'k' => Input::UP,
            'l' => Input::RIGHT,
            _ => Input::NOOP,
        }
    }
}

} // verus!
