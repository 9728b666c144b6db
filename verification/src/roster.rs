//! The line-up of players as a sequence: who is in it, and how joins and
//! leaves change it.

use vstd::prelude::*;
use crate::player::Player;

verus! {

/// Whether some player in `players` has the id `id`.
pub open spec fn spec_has(players: Seq<Player>, id: u128) -> bool {
    exists|i: int| 0 <= i < players.len() && (#[trigger] players[i]).id == id
}

/// The ids of `players`.
pub open spec fn spec_ids(players: Seq<Player>) -> Set<u128> {
    Set::new(|id: u128| spec_has(players, id))
}

/// Whether no two players in `players` share an id.
pub open spec fn spec_distinct(players: Seq<Player>) -> bool {
    forall|i: int, j: int|
        0 <= i < j < players.len() ==> (#[trigger] players[i]).id != (#[trigger] players[j]).id
}

/// Holds of every player but the one called `id`.
pub open spec fn spec_other_than(id: u128) -> spec_fn(Player) -> bool {
    |p: Player| p.id != id
}

/// `players` with a fresh player `id` at the end; unchanged if the id is taken.
pub open spec fn spec_join(players: Seq<Player>, id: u128) -> Seq<Player> {
    if spec_has(players, id) {
        players
    } else {
        players.push(Player::spec_spawn(id))
    }
}

/// `players` without the player `id`, the others in their order.
pub open spec fn spec_leave(players: Seq<Player>, id: u128) -> Seq<Player> {
    players.filter(spec_other_than(id))
}

/// One change of the line-up.
#[derive(Clone, Copy, Debug, PartialEq, Eq, Structural)]
pub enum Turnover {
    /// A join under this id.
    Join(u128),
    /// A leave of this id.
    Leave(u128),
}

/// `players` after the changes of `changes`, first to last.
pub open spec fn spec_replay(players: Seq<Player>, changes: Seq<Turnover>) -> Seq<Player>
    decreases changes.len(),
{
    if changes.len() == 0 {
        players
    } else {
        let before = spec_replay(players, changes.drop_last());
        match changes.last() {
            Turnover::Join(id) => spec_join(before, id),
            Turnover::Leave(id) => spec_leave(before, id),
        }
    }
}

/// The ids that are outstanding after `changes`, starting from `start`: each
/// join puts its id in, each leave takes its id out.
pub open spec fn spec_outstanding(start: Set<u128>, changes: Seq<Turnover>) -> Set<u128>
    decreases changes.len(),
{
    if changes.len() == 0 {
        start
    } else {
        let before = spec_outstanding(start, changes.drop_last());
        match changes.last() {
            Turnover::Join(id) => before.insert(id),
            Turnover::Leave(id) => before.remove(id),
        }
    }
}

/// Two line-ups that agree on the id at every place hold the same ids, and
/// one is free of duplicates if the other is.
pub proof fn lemma_same_ids(a: Seq<Player>, b: Seq<Player>)
    requires
        a.len() == b.len(),
        forall|j: int| 0 <= j < b.len() ==> (#[trigger] b[j]).id == a[j].id,
    ensures
        forall|x: u128| spec_has(a, x) == spec_has(b, x),
        spec_distinct(a) ==> spec_distinct(b),
        spec_ids(a) == spec_ids(b),
{
    assert forall|x: u128| spec_has(a, x) == spec_has(b, x) by {
        if spec_has(a, x) {
            let i = choose|i: int| 0 <= i < a.len() && (#[trigger] a[i]).id == x;
            assert(b[i].id == x);
        }
        if spec_has(b, x) {
            let i = choose|i: int| 0 <= i < b.len() && (#[trigger] b[i]).id == x;
            assert(a[i].id == x);
        }
    }
    if spec_distinct(a) {
        assert forall|i: int, j: int| 0 <= i < j < b.len() implies (#[trigger] b[i]).id != (
        #[trigger] b[j]).id by {
            assert(a[i].id != a[j].id);
        }
    }
    assert(spec_ids(a) =~= spec_ids(b));
}

/// A join keeps the ids distinct and adds its id to them.
pub proof fn lemma_join(players: Seq<Player>, id: u128)
    requires
        spec_distinct(players),
    ensures
        spec_distinct(spec_join(players, id)),
        forall|x: u128| spec_has(spec_join(players, id), x) == (x == id || spec_has(players, x)),
        spec_ids(spec_join(players, id)) == spec_ids(players).insert(id),
{
    let after = spec_join(players, id);
    if !spec_has(players, id) {
        assert(after[players.len() as int].id == id);
        assert forall|i: int, j: int| 0 <= i < j < after.len() implies (#[trigger] after[i]).id
            != (#[trigger] after[j]).id by {
            assert(after[i] == players[i]);
            if j < players.len() {
                assert(after[j] == players[j]);
            }
        }
    }
    assert forall|x: u128| spec_has(after, x) == (x == id || spec_has(players, x)) by {
        if spec_has(players, x) {
            let i = choose|i: int| 0 <= i < players.len() && (#[trigger] players[i]).id == x;
            assert(after[i].id == x);
        }
        if spec_has(after, x) && x != id {
            let i = choose|i: int| 0 <= i < after.len() && (#[trigger] after[i]).id == x;
            assert(players[i].id == x);
        }
    }
    assert(spec_ids(after) =~= spec_ids(players).insert(id));
}

/// A leave of an id that nobody carries changes nothing.
pub proof fn lemma_leave_absent(players: Seq<Player>, id: u128)
    requires
        !spec_has(players, id),
    ensures
        spec_leave(players, id) == players,
    decreases players.len(),
{
    reveal(Seq::filter);
    if players.len() > 0 {
        let rest = players.drop_last();
        assert forall|i: int| 0 <= i < rest.len() implies (#[trigger] rest[i]).id != id by {
            assert(players[i].id != id);
        }
        lemma_leave_absent(rest, id);
        assert(players.last().id != id);
        assert(rest.push(players.last()) =~= players);
    }
}

/// Among distinct ids, a leave takes out the one player that carries the id.
pub proof fn lemma_leave_present(players: Seq<Player>, id: u128, k: int)
    requires
        spec_distinct(players),
        0 <= k < players.len(),
        players[k].id == id,
    ensures
        spec_leave(players, id) == players.remove(k),
    decreases players.len(),
{
    reveal(Seq::filter);
    let rest = players.drop_last();
    let last = players.last();
    assert forall|i: int, j: int| 0 <= i < j < rest.len() implies (#[trigger] rest[i]).id != (
    #[trigger] rest[j]).id by {
        assert(players[i].id != players[j].id);
    }
    if k == players.len() - 1 {
        assert forall|i: int| 0 <= i < rest.len() implies (#[trigger] rest[i]).id != id by {
            assert(players[i].id != players[k].id);
        }
        lemma_leave_absent(rest, id);
        assert(players.remove(k) =~= rest);
    } else {
        assert(players[k].id != players[players.len() - 1].id);
        assert(rest[k].id == id);
        lemma_leave_present(rest, id, k);
        assert(rest.remove(k).push(last) =~= players.remove(k));
    }
}

/// A leave keeps the ids distinct and takes its id, and no other, from them.
pub proof fn lemma_leave(players: Seq<Player>, id: u128)
    requires
        spec_distinct(players),
    ensures
        spec_distinct(spec_leave(players, id)),
        forall|x: u128| spec_has(spec_leave(players, id), x) == (x != id && spec_has(players, x)),
        spec_ids(spec_leave(players, id)) == spec_ids(players).remove(id),
{
    let after = spec_leave(players, id);
    if spec_has(players, id) {
        let k = choose|k: int| 0 <= k < players.len() && (#[trigger] players[k]).id == id;
        lemma_leave_present(players, id, k);
        assert forall|j: int| 0 <= j < after.len() implies (#[trigger] after[j]).id != id by {
            let a = if j < k { j } else { j + 1 };
            assert(after[j] == players[a]);
            if a < k {
                assert(players[a].id != players[k].id);
            } else {
                assert(players[k].id != players[a].id);
            }
        }
        assert forall|i: int, j: int| 0 <= i < j < after.len() implies (#[trigger] after[i]).id
            != (#[trigger] after[j]).id by {
            let a = if i < k { i } else { i + 1 };
            let b = if j < k { j } else { j + 1 };
            assert(after[i] == players[a]);
            assert(after[j] == players[b]);
        }
        assert forall|x: u128| spec_has(after, x) == (x != id && spec_has(players, x)) by {
            if spec_has(after, x) {
                let j = choose|j: int| 0 <= j < after.len() && (#[trigger] after[j]).id == x;
                let a = if j < k { j } else { j + 1 };
                assert(players[a].id == x);
            }
            if x != id && spec_has(players, x) {
                let a = choose|a: int| 0 <= a < players.len() && (#[trigger] players[a]).id == x;
                let j = if a < k { a } else { a - 1 };
                assert(after[j].id == x);
            }
        }
    } else {
        lemma_leave_absent(players, id);
    }
    assert(spec_ids(after) =~= spec_ids(players).remove(id));
}

/// After any sequence of joins and leaves the ids are still distinct, and
/// they are exactly the ids that were there or joined and have not left
/// since.
pub proof fn lemma_roster(players: Seq<Player>, changes: Seq<Turnover>)
    requires
        spec_distinct(players),
    ensures
        spec_distinct(spec_replay(players, changes)),
        spec_ids(spec_replay(players, changes)) == spec_outstanding(spec_ids(players), changes),
    decreases changes.len(),
{
    if changes.len() > 0 {
        lemma_roster(players, changes.drop_last());
        let before = spec_replay(players, changes.drop_last());
        match changes.last() {
            Turnover::Join(id) => lemma_join(before, id),
            Turnover::Leave(id) => lemma_leave(before, id),
        }
    }
}

/// Leaving twice is leaving once.
pub proof fn lemma_leave_twice(players: Seq<Player>, id: u128)
    requires
        spec_distinct(players),
    ensures
        spec_leave(spec_leave(players, id), id) == spec_leave(players, id),
{
    lemma_leave(players, id);
    lemma_leave_absent(spec_leave(players, id), id);
}

} // verus!
