//! The world: the players in join order and the level they move in.

use vstd::prelude::*;
use crate::ident::{fresh_id, spec_drawn};
use crate::input::PlayerEvent;
use crate::level::Platform;
use crate::physics::{
    integrate, lemma_resolve, lemma_step_keeps_identity, resolve, spec_hits, spec_integrate,
    spec_resolve, spec_run, spec_step,
};
use crate::player::{Player, Sprite};
use crate::roster::{
    lemma_join, lemma_leave, lemma_leave_absent, lemma_leave_present, lemma_same_ids,
    spec_distinct, spec_has, spec_ids, spec_join, spec_leave,
};
use crate::units::{in_range, GRAVITY, JUMP_IMPULSE};

verus! {

/// `players` after `event` was applied to each player with the id `id`.
pub open spec fn spec_apply(players: Seq<Player>, id: u128, event: PlayerEvent) -> Seq<Player> {
    Seq::new(
        players.len(),
        |i: int|
            if players[i].id == id {
                event.spec_execute(players[i])
            } else {
                players[i]
            },
    )
}

/// `players` after the message `input` from the client `id`: only the first
/// character counts; an empty message or an unknown character changes nothing.
pub open spec fn spec_stdin(players: Seq<Player>, id: u128, input: Seq<char>) -> Seq<Player> {
    if input.len() == 0 {
        players
    } else {
        match PlayerEvent::spec_from_char(input[0]) {
            Some(event) => spec_apply(players, id, event),
            None => players,
        }
    }
}

/// `players` after one tick in the level `level`.
pub open spec fn spec_tick(players: Seq<Player>, level: Seq<Platform>) -> Seq<Player> {
    Seq::new(players.len(), |i: int| spec_step(players[i], level))
}

/// The public records of `players`, in the same order.
pub open spec fn spec_snapshot(players: Seq<Player>) -> Seq<Sprite> {
    Seq::new(players.len(), |i: int| players[i].spec_sprite())
}

/// The authoritative state of one game.
pub struct Platformer {
    players: Vec<Player>,
    platforms: Vec<Platform>,
}

impl View for Platformer {
    type V = Seq<Player>;

    /// The players, in join order.
    closed spec fn view(&self) -> Seq<Player> {
        self.players@
    }
}

impl Platformer {
    /// The level.
    pub closed spec fn level(&self) -> Seq<Platform> {
        self.platforms@
    }

    /// Whether a player with this id is in the world.
    pub open spec fn has(&self, id: u128) -> bool {
        spec_has(self@, id)
    }

    /// The ids of the players in the world.
    pub open spec fn ids(&self) -> Set<u128> {
        spec_ids(self@)
    }

    /// The world's invariant: no two players share an id.
    pub open spec fn wf(&self) -> bool {
        spec_distinct(self@)
    }

    /// An empty world over the given level.
    pub fn new(platforms: Vec<Platform>) -> (world: Platformer)
        ensures
            world.wf(),
            world@ == Seq::<Player>::empty(),
            world.level() == platforms@,
    {
        Platformer { players: Vec::new(), platforms }
    }

    /// The players, in join order.
    pub fn players(&self) -> (players: &Vec<Player>)
        ensures
            players@ == self@,
    {
        &self.players
    }

    /// The level.
    pub fn platforms(&self) -> (platforms: &Vec<Platform>)
        ensures
            platforms@ == self.level(),
    {
        &self.platforms
    }

    /// Where the player `id` stands in join order, if it is in the world.
    pub fn position(&self, id: u128) -> (found: Option<usize>)
        ensures
            match found {
                Some(i) => i < self@.len() && self@[i as int].id == id && forall|j: int|
                    0 <= j < i ==> (#[trigger] self@[j]).id != id,
                None => !self.has(id),
            },
    {
        let mut i: usize = 0;
        while i < self.players.len()
            invariant
                i <= self.players@.len(),
                forall|j: int| 0 <= j < i ==> (#[trigger] self.players@[j]).id != id,
            decreases self.players@.len() - i,
        {
            if self.players[i].id == id {
                return Some(i);
            }
            i += 1;
        }
        None
    }

    /// The player `id`, if it is in the world.
    pub fn get(&self, id: u128) -> (found: Option<Player>)
        requires
            self.wf(),
        ensures
            found is Some <==> self.has(id),
            forall|i: int|
                0 <= i < self@.len() && (#[trigger] self@[i]).id == id ==> found == Some(self@[i]),
    {
        match self.position(id) {
            Some(k) => {
                assert forall|i: int| 0 <= i < self@.len() && (#[trigger] self@[i]).id
                    == id implies i == k by {
                    if i < k {
                        assert(self@[i].id != self@[k as int].id);
                    } else if i > k {
                        assert(self@[k as int].id != self@[i].id);
                    }
                }
                Some(self.players[k])
            },
            None => None,
        }
    }

    /// Admits a player under the id `id`, unless that id is taken: then the
    /// world stays as it is and the join is refused.
    pub fn join_with(&mut self, id: u128) -> (joined: Option<u128>)
        requires
            old(self).wf(),
        ensures
            final(self).wf(),
            final(self).level() == old(self).level(),
            joined == if old(self).has(id) {
                None
            } else {
                Some(id)
            },
            final(self)@ == spec_join(old(self)@, id),
            forall|x: u128| final(self).has(x) == (x == id || old(self).has(x)),
            final(self).ids() == old(self).ids().insert(id),
    {
        proof {
            lemma_join(self@, id);
        }
        match self.position(id) {
            Some(_) => None,
            None => {
                self.players.push(Player::spawn(id));
                Some(id)
            },
        }
    }

    /// Admits a player under a freshly drawn id: whatever id the draw gives,
    /// the outcome is that of `join_with` for it. So the join is refused, and
    /// the world unchanged, only if the draw hit an id that is already taken;
    /// in an empty world it always succeeds.
    pub fn join(&mut self) -> (joined: Option<u128>)
        requires
            old(self).wf(),
        ensures
            final(self).wf(),
            final(self).level() == old(self).level(),
            (exists|drawn: u128|
                #[trigger] spec_drawn(drawn) && final(self)@ == spec_join(old(self)@, drawn)
                    && joined == if old(self).has(drawn) {
                    None
                } else {
                    Some(drawn)
                }),
            old(self)@.len() == 0 ==> joined is Some,
            joined matches Some(id) ==> spec_drawn(id),
            match joined {
                Some(id) => !old(self).has(id) && final(self)@ == spec_join(old(self)@, id)
                    && final(self).ids() == old(self).ids().insert(id) && forall|x: u128|
                    final(self).has(x) == (x == id || old(self).has(x)),
                None => final(self)@ == old(self)@,
            },
    {
        let id: u128 = fresh_id();
        self.join_with(id)
    }

    /// Removes the player `id`. Says whether there was one; if not, nothing
    /// changes.
    pub fn leave(&mut self, id: u128) -> (removed: bool)
        requires
            old(self).wf(),
        ensures
            final(self).wf(),
            final(self).level() == old(self).level(),
            removed == old(self).has(id),
            final(self)@ == spec_leave(old(self)@, id),
            !removed ==> final(self)@ == old(self)@,
            removed ==> exists|i: int|
                0 <= i < old(self)@.len() && (#[trigger] old(self)@[i]).id == id && final(self)@
                    == old(self)@.remove(i),
            forall|x: u128| final(self).has(x) == (x != id && old(self).has(x)),
            final(self).ids() == old(self).ids().remove(id),
    {
        proof {
            lemma_leave(self@, id);
        }
        match self.position(id) {
            Some(idx) => {
                proof {
                    lemma_leave_present(self@, id, idx as int);
                }
                self.players.remove(idx);
                true
            },
            None => {
                proof {
                    lemma_leave_absent(self@, id);
                }
                false
            },
        }
    }

    /// Applies `event` to the player `id`; without such a player, nothing
    /// happens.
    pub fn apply(&mut self, id: u128, event: PlayerEvent)
        requires
            old(self).wf(),
        ensures
            final(self).wf(),
            final(self).level() == old(self).level(),
            final(self)@ == spec_apply(old(self)@, id, event),
            final(self).ids() == old(self).ids(),
            !old(self).has(id) ==> final(self)@ == old(self)@,
    {
        match self.position(id) {
            Some(i) => {
                let ghost before = self@;
                let mut player: Player = self.players[i];
                event.execute(&mut player);
                self.players.set(i, player);
                proof {
                    let after = self@;
                    assert forall|j: int| 0 <= j < after.len() implies (#[trigger] after[j]).id
                        == before[j].id by {}
                    assert(after =~= spec_apply(before, id, event));
                    lemma_same_ids(before, after);
                }
            },
            None => {
                assert(self@ =~= spec_apply(self@, id, event));
            },
        }
    }

    /// Takes one message from the client `id`: its first character is decoded
    /// and applied to that client's player. An empty message, an unknown
    /// character or a player that has left changes nothing.
    pub fn stdin(&mut self, id: u128, input: &str)
        requires
            old(self).wf(),
        ensures
            final(self).wf(),
            final(self).level() == old(self).level(),
            final(self)@ == spec_stdin(old(self)@, id, input@),
            final(self).ids() == old(self).ids(),
    {
        if input.unicode_len() == 0 {
            return ;
        }
        match PlayerEvent::from_char(input.get_char(0)) {
            Some(event) => self.apply(id, event),
            None => {},
        }
    }

    /// One tick: every player is integrated, then every player is resolved
    /// against the level, then the snapshot is taken. An empty world yields no
    /// snapshot.
    pub fn frame(&mut self) -> (snapshot: Option<Vec<Sprite>>)
        requires
            old(self).wf(),
        ensures
            final(self).wf(),
            final(self).level() == old(self).level(),
            final(self)@ == spec_tick(old(self)@, old(self).level()),
            final(self).ids() == old(self).ids(),
            match snapshot {
                Some(sprites) => old(self)@.len() > 0 && sprites@ == spec_snapshot(final(self)@),
                None => old(self)@.len() == 0,
            },
    {
        let ghost before = self@;
        let ghost level = self.level();
        let n: usize = self.players.len();
        if n == 0 {
            assert(self@ =~= spec_tick(before, level));
            return None;
        }
        let mut i: usize = 0;
        while i < n
            invariant
                i <= n,
                n == before.len(),
                self.players@.len() == n,
                self.platforms@ == level,
                forall|j: int| 0 <= j < i ==> self.players@[j] == spec_integrate(before[j]),
                forall|j: int| i <= j < n ==> self.players@[j] == before[j],
            decreases n - i,
        {
            let mut player: Player = self.players[i];
            integrate(&mut player);
            self.players.set(i, player);
            i += 1;
        }
        i = 0;
        while i < n
            invariant
                i <= n,
                n == before.len(),
                self.players@.len() == n,
                self.platforms@ == level,
                forall|j: int|
                    0 <= j < i ==> self.players@[j] == spec_resolve(
                        spec_integrate(before[j]),
                        level,
                    ),
                forall|j: int| i <= j < n ==> self.players@[j] == spec_integrate(before[j]),
            decreases n - i,
        {
            let mut player: Player = self.players[i];
            resolve(&mut player, &self.platforms);
            self.players.set(i, player);
            i += 1;
        }
        proof {
            let after = self@;
            assert(after =~= spec_tick(before, level));
            assert forall|j: int| 0 <= j < after.len() implies (#[trigger] after[j]).id
                == before[j].id by {
                lemma_step_keeps_identity(before[j], level);
            }
            lemma_same_ids(before, after);
        }
        let mut sprites: Vec<Sprite> = Vec::new();
        i = 0;
        while i < n
            invariant
                i <= n,
                self.players@.len() == n,
                sprites@.len() == i,
                forall|j: int| 0 <= j < i ==> sprites@[j] == self.players@[j].spec_sprite(),
            decreases n - i,
        {
            sprites.push(self.players[i].sprite());
            i += 1;
        }
        assert(sprites@ =~= spec_snapshot(self@));
        Some(sprites)
    }
}

/// `players` after `n` ticks in the level `level`.
pub open spec fn spec_ticks(players: Seq<Player>, level: Seq<Platform>, n: nat) -> Seq<Player>
    decreases n,
{
    if n == 0 {
        players
    } else {
        spec_tick(spec_ticks(players, level, (n - 1) as nat), level)
    }
}

/// Ticks treat each player by itself: after `n` of them the line-up is as
/// long as before, and each place holds its player's own run of `n` ticks.
pub proof fn lemma_ticks_are_runs(players: Seq<Player>, level: Seq<Platform>, n: nat)
    ensures
        spec_ticks(players, level, n).len() == players.len(),
        forall|i: int|
            0 <= i < players.len() ==> (#[trigger] spec_ticks(players, level, n)[i]) == spec_run(
                players[i],
                level,
                n,
            ),
    decreases n,
{
    if n > 0 {
        lemma_ticks_are_runs(players, level, (n - 1) as nat);
    }
}

/// A message that is empty or starts with an unknown character changes no
/// player.
pub proof fn lemma_unrecognized_is_inert(players: Seq<Player>, id: u128, input: Seq<char>)
    requires
        input.len() == 0 || PlayerEvent::spec_from_char(input[0]) is None,
    ensures
        spec_stdin(players, id, input) == players,
{
}

/// Input reaches the sender's player only: every other player stays as it is,
/// and so does the line-up's length.
pub proof fn lemma_input_is_private(players: Seq<Player>, id: u128, input: Seq<char>)
    ensures
        spec_stdin(players, id, input).len() == players.len(),
        forall|i: int|
            0 <= i < players.len() && players[i].id != id ==> (#[trigger] spec_stdin(
                players,
                id,
                input,
            )[i]) == players[i],
{
}

/// A jump followed by a tick in which the player meets no solid platform:
/// the vertical velocity drops by the impulse and rises by gravity, as long
/// as neither step saturates.
pub proof fn lemma_jump_then_tick(p: Player, level: Seq<Platform>)
    requires
        in_range(p.y_velocity - JUMP_IMPULSE),
        spec_hits(spec_integrate(PlayerEvent::Jump.spec_execute(p)), level) == 0,
    ensures
        spec_step(PlayerEvent::Jump.spec_execute(p), level).y_velocity == p.y_velocity
            - JUMP_IMPULSE + GRAVITY,
{
    lemma_resolve(spec_integrate(PlayerEvent::Jump.spec_execute(p)), level);
}

} // verus!
