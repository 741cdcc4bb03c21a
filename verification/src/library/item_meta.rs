//! Genres, game modes, and controller support of a library item.

use vstd::prelude::*;

verus! {

#[derive(Debug, Clone, Copy, PartialEq, Eq, Structural)]
pub enum InputType {
    Keyboard,
    Xbox360,
    XboxOne,
    Switch,
    Ps3,
    Ps4,
}

#[derive(Debug)]
pub enum GameModes {
    Other(String),
}

impl Clone for GameModes {
    fn clone(&self) -> (r: Self)
        ensures
            r == *self,
    {
        match self {
            GameModes::Other(s) => GameModes::Other(s.clone()),
        }
    }
}

#[derive(Debug)]
pub enum Genre {
    PointAndClick,
    Fighting,
    Shooter,
    Music,
    Platform,
    Puzzle,
    Racing,
    Rts,
    Rpg,
    Simulator,
    Sport,
    Strategy,
    TurnBased,
    Tactical,
    Quit,
    Hacknslash,
    Pinball,
    Adventure,
    Arcrade,
    VisualNovel,
    Indie,
    CardBoardGame,
    Moba,
    Other(String),
}

impl Clone for Genre {
    fn clone(&self) -> (r: Self)
        ensures
            r == *self,
    {
        match self {
            Genre::PointAndClick => Genre::PointAndClick,
            Genre::Fighting => Genre::Fighting,
            Genre::Shooter => Genre::Shooter,
            Genre::Music => Genre::Music,
            Genre::Platform => Genre::Platform,
            Genre::Puzzle => Genre::Puzzle,
            Genre::Racing => Genre::Racing,
            Genre::Rts => Genre::Rts,
            Genre::Rpg => Genre::Rpg,
            Genre::Simulator => Genre::Simulator,
            Genre::Sport => Genre::Sport,
            Genre::Strategy => Genre::Strategy,
            Genre::TurnBased => Genre::TurnBased,
            Genre::Tactical => Genre::Tactical,
            Genre::Quit => Genre::Quit,
            Genre::Hacknslash => Genre::Hacknslash,
            Genre::Pinball => Genre::Pinball,
            Genre::Adventure => Genre::Adventure,
            Genre::Arcrade => Genre::Arcrade,
            Genre::VisualNovel => Genre::VisualNovel,
            Genre::Indie => Genre::Indie,
            Genre::CardBoardGame => Genre::CardBoardGame,
            Genre::Moba => Genre::Moba,
            Genre::Other(s) => Genre::Other(s.clone()),
        }
    }
}

} // verus!
