//! Decoding one input character and applying it to a player.

use vstd::prelude::*;
use crate::player::Player;
use crate::units::{clamp, sat_sub, JUMP_IMPULSE, MOVE_SPEED};

verus! {

/// What a client can ask of its player.
#[derive(Clone, Copy, Debug, PartialEq, Eq, Structural)]
pub enum PlayerEvent {
    Jump,
    StartLeft,
    StartRight,
    StopLeft,
    StopRight,
}

impl PlayerEvent {
    /// The event that a character stands for; `None` for every other character.
    pub open spec fn spec_from_char(c: char) -> Option<PlayerEvent> {
        if c == 'j' {
            Some(PlayerEvent::Jump)
        } else if c == 'l' {
            Some(PlayerEvent::StartLeft)
        } else if c == 'r' {
            Some(PlayerEvent::StartRight)
        } else if c == 'a' {
            Some(PlayerEvent::StopLeft)
        } else if c == 'd' {
            Some(PlayerEvent::StopRight)
        } else {
            None
        }
    }

    /// The player after the event: a jump takes `JUMP_IMPULSE` off the vertical
    /// velocity (saturating), a start sets the horizontal velocity, a stop
    /// changes nothing.
    pub open spec fn spec_execute(self, p: Player) -> Player {
        match self {
            PlayerEvent::Jump => Player { y_velocity: clamp(p.y_velocity - JUMP_IMPULSE), ..p },
            PlayerEvent::StartLeft => Player { x_velocity: (-MOVE_SPEED) as i64, ..p },
            PlayerEvent::StartRight => Player { x_velocity: MOVE_SPEED, ..p },
            PlayerEvent::StopLeft => p,
            PlayerEvent::StopRight => p,
        }
    }

    /// Applies the event to `player`.
    pub fn execute(&self, player: &mut Player)
        ensures
            *final(player) == self.spec_execute(*old(player)),
    {
        match self {
            PlayerEvent::Jump => {
                player.y_velocity = sat_sub(player.y_velocity, JUMP_IMPULSE);
            },
            PlayerEvent::StartLeft => {
                player.x_velocity = -MOVE_SPEED;
            },
            PlayerEvent::StartRight => {
                player.x_velocity = MOVE_SPEED;
            },
            PlayerEvent::StopLeft => {},
            PlayerEvent::StopRight => {},
        };
    }

    /// Decodes one character.
    pub fn from_char(char: char) -> (r: Option<Self>)
        ensures
            r == Self::spec_from_char(char),
    {
        match char {
            'j' => Some(PlayerEvent::Jump),
            'l' => Some(PlayerEvent::StartLeft),
            'r' => Some(PlayerEvent::StartRight),
            'a' => Some(PlayerEvent::StopLeft),
            'd' => Some(PlayerEvent::StopRight),
            _ => None,
        }
    }
}

/// Every character decodes to exactly one outcome, and only the five command
/// characters decode to an event.
pub proof fn lemma_decode_total(c: char)
    ensures
        PlayerEvent::spec_from_char(c) == Some(PlayerEvent::Jump) <==> c == 'j',
        PlayerEvent::spec_from_char(c) == Some(PlayerEvent::StartLeft) <==> c == 'l',
        PlayerEvent::spec_from_char(c) == Some(PlayerEvent::StartRight) <==> c == 'r',
        PlayerEvent::spec_from_char(c) == Some(PlayerEvent::StopLeft) <==> c == 'a',
        PlayerEvent::spec_from_char(c) == Some(PlayerEvent::StopRight) <==> c == 'd',
        PlayerEvent::spec_from_char(c) is None <==> !(c == 'j' || c == 'l' || c == 'r' || c == 'a'
            || c == 'd'),
{
}

/// An event touches nothing but the velocity.
pub proof fn lemma_execute_keeps_place(ev: PlayerEvent, p: Player)
    ensures
        ev.spec_execute(p).id == p.id,
        ev.spec_execute(p).x == p.x,
        ev.spec_execute(p).y == p.y,
        ev.spec_execute(p).w == p.w,
        ev.spec_execute(p).h == p.h,
        ev.spec_execute(p).rgb == p.rgb,
{
}

} // verus!
