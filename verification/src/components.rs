//! The data that the game entities carry.

use vstd::prelude::*;

verus! {

/// What kind of body a collider belongs to.
#[derive(Debug, Clone, Copy, PartialEq, Eq, Structural)]
pub enum ColliderTypes {
    Player,
    Wall,
}

/// The collider tag attached to the player and to every wall.
#[derive(Debug, Clone, Copy, PartialEq, Eq, Structural)]
pub struct ColliderT {
    pub collider_type: ColliderTypes,
}

impl ColliderT {
    /// The tag of the player's own collider.
    pub fn player() -> (c: ColliderT)
        ensures
            c.collider_type == ColliderTypes::Player,
    {
        ColliderT { collider_type: ColliderTypes::Player }
    }

    /// The tag of a maze wall.
    pub fn wall() -> (c: ColliderT)
        ensures
            c.collider_type == ColliderTypes::Wall,
    {
        ColliderT { collider_type: ColliderTypes::Wall }
    }
}

/// The player, which carries its own collider tag.
#[derive(Debug, Clone, Copy, PartialEq, Eq, Structural)]
pub struct Player {
    collider: ColliderT,
}

impl Player {
    pub closed spec fn spec_collider(&self) -> ColliderT {
        self.collider
    }

    pub fn new(collider: ColliderT) -> (p: Player)
        ensures
            p.spec_collider() == collider,
    {
        Player { collider }
    }

    pub fn collider(&self) -> (c: ColliderT)
        ensures
            c == self.spec_collider(),
    {
        self.collider
    }
}

/// The state of the game; the game has a single state.
#[derive(Debug, Clone, Copy, PartialEq, Eq, Structural, Hash)]
pub struct GameState;

impl Default for GameState {
    fn default() -> (s: GameState)
        ensures
            s == GameState,
    {
        GameState
    }
}

} // verus!
