//! Players and the public record that a snapshot carries for each of them.

use vstd::prelude::*;

verus! {

/// Presentation tag of a player.
#[derive(Clone, Copy, Debug, PartialEq, Eq, Structural)]
pub enum Color {
    /// Freshly spawned, or never grounded so far.
    Red,
    /// Grounded marker: the player has overlapped a solid platform.
    Green,
}

impl Color {
    /// The colour's name in snapshots, as a sequence of characters.
    pub open spec fn spec_name(self) -> Seq<char> {
        match self {
            Color::Red => "red"@,
            Color::Green => "green"@,
        }
    }

    /// The colour's name in snapshots.
    pub fn name(&self) -> (s: &'static str)
        ensures
            s@ == self.spec_name(),
    {
        match self {
            Color::Red => "red",
            Color::Green => "green",
        }
    }
}

/// One connected client's entity. Lengths and velocities are fixed-point.
#[derive(Clone, Copy, Debug, PartialEq, Eq, Structural)]
pub struct Player {
    pub id: u128,
    pub rgb: Color,
    pub w: i64,
    pub h: i64,
    pub x_velocity: i64,
    pub y_velocity: i64,
    pub x: i64,
    pub y: i64,
}

/// What a snapshot shows of one player: neither its id nor its velocity.
#[derive(Clone, Copy, Debug, PartialEq, Eq, Structural)]
pub struct Sprite {
    pub rgb: Color,
    pub w: i64,
    pub h: i64,
    pub x: i64,
    pub y: i64,
}

/// Side length of a freshly spawned player.
pub const SPAWN_SIZE: i64 = 10000;

/// Both coordinates of the spawn point.
pub const SPAWN_AT: i64 = 20000;

impl Player {
    /// The player that a join creates for `id`.
    pub open spec fn spec_spawn(id: u128) -> Player {
        Player {
            id,
            rgb: Color::Red,
            w: SPAWN_SIZE,
            h: SPAWN_SIZE,
            x_velocity: 0,
            y_velocity: 0,
            x: SPAWN_AT,
            y: SPAWN_AT,
        }
    }

    /// A resting red player of the default size at the spawn point.
    pub fn spawn(id: u128) -> (p: Player)
        ensures
            p == Player::spec_spawn(id),
    {
        Player {
            id,
            rgb: Color::Red,
            w: SPAWN_SIZE,
            h: SPAWN_SIZE,
            x_velocity: 0,
            y_velocity: 0,
            x: SPAWN_AT,
            y: SPAWN_AT,
        }
    }

    /// The public record of this player.
    pub open spec fn spec_sprite(self) -> Sprite {
        Sprite { rgb: self.rgb, w: self.w, h: self.h, x: self.x, y: self.y }
    }

    /// The public record of this player.
    pub fn sprite(&self) -> (s: Sprite)
        ensures
            s == self.spec_sprite(),
    {
        Sprite { rgb: self.rgb, w: self.w, h: self.h, x: self.x, y: self.y }
    }
}

} // verus!
