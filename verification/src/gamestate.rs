//! The outcome of a game as far as it is decided.

use vstd::prelude::*;
use vstd::string::*;
use crate::piece::Color;

verus! {

#[derive(Debug, Clone, Copy, PartialEq, Eq, Structural, PartialOrd, Ord, Hash)]
pub enum GameState {
    OnGoing,
    Draw,
    Win(Color),
}

impl GameState {
    pub fn is_over(&self) -> (r: bool)
        ensures
            r == !(*self is OnGoing),
    {
        matches!(self, GameState::Draw | GameState::Win(_))
    }

    pub fn is_draw(&self) -> (r: bool)
        ensures
            r == (*self is Draw),
    {
        matches!(self, GameState::Draw)
    }

    pub fn is_win(&self) -> (r: bool)
        ensures
            r == (*self is Win),
    {
        matches!(self, GameState::Win(_))
    }

    pub fn winner(&self) -> (r: Option<Color>)
        ensures
            r == match *self {
                GameState::Win(color) => Some(color),
                _ => None,
            },
    {
        match self {
            GameState::Win(color) => Some(*color),
            _ => None,
        }
    }

    pub fn is_ongoing(&self) -> (r: bool)
        ensures
            r == (*self is OnGoing),
    {
        matches!(self, GameState::OnGoing)
    }
}

impl GameState {
    /// The printed form of the state.
    pub open spec fn text(self) -> Seq<char> {
        match self {
            GameState::OnGoing => "OnGoing"@,
            GameState::Draw => "Draw"@,
            GameState::Win(color) => "Win("@ + color.name() + ")"@,
        }
    }

    /// The printed form of the state: `OnGoing`, `Draw`, or `Win` with the
    /// winner's color in brackets.
    pub fn to_string(&self) -> (r: String)
        ensures
            r@ == self.text(),
    {
        match self {
            GameState::OnGoing => String::from_str("OnGoing"),
            GameState::Draw => String::from_str("Draw"),
            GameState::Win(color) => {
                let mut text = String::from_str("Win(");
                let name = color.to_string();
                text.append(name.as_str());
                text.append(")");
                text
            },
        }
    }
}

impl Default for GameState {
    fn default() -> (r: GameState)
        ensures
            r == GameState::OnGoing,
    {
        GameState::OnGoing
    }
}

} // verus!
