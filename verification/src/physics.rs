//! One tick of one player: integration, then collision against the level;
//! and what holds of a player's trajectory over many ticks.

use vstd::prelude::*;
use crate::level::{DimensionPosition, Platform};
use crate::player::{Color, Player};
use crate::units::{clamp, in_range, sat_add, sat_sub, GRAVITY};

verus! {

/// The player after integration: gravity is added to the vertical velocity,
/// then the velocity to the position, each sum saturating.
pub open spec fn spec_integrate(p: Player) -> Player {
    let vy = clamp(p.y_velocity + GRAVITY);
    Player { y_velocity: vy, x: clamp(p.x + p.x_velocity), y: clamp(p.y + vy), ..p }
}

/// Whether the player's rectangle and `r` overlap: strictly, on both axes.
pub open spec fn spec_overlaps(p: Player, r: DimensionPosition) -> bool {
    &&& p.x < r.x + r.w
    &&& p.x + p.w > r.x
    &&& p.y < r.y + r.h
    &&& p.y + p.h > r.y
}

/// Whether `platform` is solid and the player overlaps it.
pub open spec fn spec_hit(p: Player, platform: Platform) -> bool {
    match platform {
        Platform::Base(r) => spec_overlaps(p, r),
        Platform::Jumpthrough(_) => false,
    }
}

/// The player after grounding: the tick's gravity is taken back from the
/// vertical velocity (saturating) and the grounded marker is set.
pub open spec fn spec_ground(p: Player) -> Player {
    Player { y_velocity: clamp(p.y_velocity - GRAVITY), rgb: Color::Green, ..p }
}

/// The player after the collision test against one platform.
pub open spec fn spec_collide(p: Player, platform: Platform) -> Player {
    if spec_hit(p, platform) {
        spec_ground(p)
    } else {
        p
    }
}

/// The player after the collision test against each platform in turn.
pub open spec fn spec_resolve(p: Player, platforms: Seq<Platform>) -> Player
    decreases platforms.len(),
{
    if platforms.len() == 0 {
        p
    } else {
        spec_collide(spec_resolve(p, platforms.drop_last()), platforms.last())
    }
}

/// The player after one whole tick.
pub open spec fn spec_step(p: Player, platforms: Seq<Platform>) -> Player {
    spec_resolve(spec_integrate(p), platforms)
}

/// How many solid platforms the player overlaps.
pub open spec fn spec_hits(p: Player, platforms: Seq<Platform>) -> nat
    decreases platforms.len(),
{
    if platforms.len() == 0 {
        0
    } else {
        spec_hits(p, platforms.drop_last()) + if spec_hit(p, platforms.last()) {
            1nat
        } else {
            0nat
        }
    }
}

/// Integration pass for one player.
pub fn integrate(player: &mut Player)
    ensures
        *final(player) == spec_integrate(*old(player)),
{
    player.y_velocity = sat_add(player.y_velocity, GRAVITY);
    player.x = sat_add(player.x, player.x_velocity);
    player.y = sat_add(player.y, player.y_velocity);
}

/// Strict rectangle overlap, computed without overflow.
pub fn overlaps(player: &Player, r: &DimensionPosition) -> (hit: bool)
    ensures
        hit == spec_overlaps(*player, *r),
{
    let px: i128 = player.x as i128;
    let py: i128 = player.y as i128;
    let rx: i128 = r.x as i128;
    let ry: i128 = r.y as i128;
    px < rx + r.w as i128 && px + player.w as i128 > rx && py < ry + r.h as i128 && py
        + player.h as i128 > ry
}

/// Collision test of one player against one platform.
pub fn collide(player: &mut Player, platform: &Platform)
    ensures
        *final(player) == spec_collide(*old(player), *platform),
{
    match platform {
        Platform::Base(r) => {
            let is_colliding: bool = overlaps(player, r);
            if is_colliding {
                player.y_velocity = sat_sub(player.y_velocity, GRAVITY);
                player.rgb = Color::Green;
            }
        },
        Platform::Jumpthrough(_r) => {},
    }
}

/// Collision pass for one player against the whole level.
pub fn resolve(player: &mut Player, platforms: &Vec<Platform>)
    ensures
        *final(player) == spec_resolve(*old(player), platforms@),
{
    let ghost start = *player;
    let mut k: usize = 0;
    while k < platforms.len()
        invariant
            k <= platforms.len(),
            *player == spec_resolve(start, platforms@.take(k as int)),
        decreases platforms.len() - k,
    {
        collide(player, &platforms[k]);
        proof {
            let next = platforms@.take(k + 1);
            assert(next.drop_last() =~= platforms@.take(k as int));
            assert(next.last() == platforms@[k as int]);
        }
        k += 1;
    }
    assert(platforms@.take(k as int) =~= platforms@);
}

/// One whole tick of one player.
pub fn step(player: &mut Player, platforms: &Vec<Platform>)
    ensures
        *final(player) == spec_step(*old(player), platforms@),
{
    integrate(player);
    resolve(player, platforms);
}

/// Collision resolution moves and resizes nothing and keeps the id; it takes
/// gravity off the vertical velocity once per solid platform overlapped
/// (exactly, while that stays in range) and sets the grounded marker if there
/// is at least one.
pub proof fn lemma_resolve(p: Player, platforms: Seq<Platform>)
    ensures
        spec_resolve(p, platforms).id == p.id,
        spec_resolve(p, platforms).x == p.x,
        spec_resolve(p, platforms).y == p.y,
        spec_resolve(p, platforms).w == p.w,
        spec_resolve(p, platforms).h == p.h,
        spec_resolve(p, platforms).x_velocity == p.x_velocity,
        spec_resolve(p, platforms).rgb == if spec_hits(p, platforms) > 0 {
            Color::Green
        } else {
            p.rgb
        },
        spec_resolve(p, platforms).y_velocity <= p.y_velocity,
        in_range(p.y_velocity - GRAVITY * spec_hits(p, platforms)) ==> spec_resolve(
            p,
            platforms,
        ).y_velocity == p.y_velocity - GRAVITY * spec_hits(p, platforms),
    decreases platforms.len(),
{
    if platforms.len() > 0 {
        let rest = platforms.drop_last();
        lemma_resolve(p, rest);
        let q = spec_resolve(p, rest);
        assert(spec_hit(q, platforms.last()) == spec_hit(p, platforms.last()));
    }
}

/// A tick keeps a player's id and size.
pub proof fn lemma_step_keeps_identity(p: Player, platforms: Seq<Platform>)
    ensures
        spec_step(p, platforms).id == p.id,
        spec_step(p, platforms).w == p.w,
        spec_step(p, platforms).h == p.h,
{
    lemma_resolve(spec_integrate(p), platforms);
}

/// Grounding cancels gravity: a player that, after integration, overlaps
/// exactly one solid platform leaves the tick with the vertical velocity it
/// entered with, and carries the grounded marker. The velocity must leave
/// room for the tick's gravity.
pub proof fn lemma_grounding_cancels_gravity(p: Player, platforms: Seq<Platform>)
    requires
        p.y_velocity + GRAVITY <= i64::MAX,
        spec_hits(spec_integrate(p), platforms) == 1,
    ensures
        spec_step(p, platforms).y_velocity == p.y_velocity,
        spec_step(p, platforms).rgb == Color::Green,
{
    lemma_resolve(spec_integrate(p), platforms);
}

/// A player after `n` ticks without input.
pub open spec fn spec_run(p: Player, platforms: Seq<Platform>, n: nat) -> Player
    decreases n,
{
    if n == 0 {
        p
    } else {
        spec_step(spec_run(p, platforms, (n - 1) as nat), platforms)
    }
}

/// How often gravity is cancelled during the first `n` ticks: once per tick
/// and solid platform that the player overlaps after that tick's integration.
pub open spec fn spec_cancellations(p: Player, platforms: Seq<Platform>, n: nat) -> nat
    decreases n,
{
    if n == 0 {
        0
    } else {
        spec_cancellations(p, platforms, (n - 1) as nat) + spec_hits(
            spec_integrate(spec_run(p, platforms, (n - 1) as nat)),
            platforms,
        )
    }
}

/// Whether one tick from `p` saturates nowhere.
pub open spec fn spec_tick_exact(p: Player, platforms: Seq<Platform>) -> bool {
    &&& in_range(p.y_velocity + GRAVITY)
    &&& in_range(p.x + p.x_velocity)
    &&& in_range(p.y + p.y_velocity + GRAVITY)
    &&& in_range(p.y_velocity + GRAVITY - GRAVITY * spec_hits(spec_integrate(p), platforms))
}

/// Whether none of the first `n` ticks from `p` saturates.
pub open spec fn spec_run_exact(p: Player, platforms: Seq<Platform>, n: nat) -> bool
    decreases n,
{
    n == 0 || (spec_run_exact(p, platforms, (n - 1) as nat) && spec_tick_exact(
        spec_run(p, platforms, (n - 1) as nat),
        platforms,
    ))
}

/// Without input and without saturation, `n` ticks add `n` times gravity to
/// the vertical velocity, less gravity once per cancellation; the horizontal
/// velocity stays, and the player moves by it `n` times.
pub proof fn lemma_velocity_after_ticks(p: Player, platforms: Seq<Platform>, n: nat)
    requires
        spec_run_exact(p, platforms, n),
    ensures
        spec_run(p, platforms, n).y_velocity == p.y_velocity + n * GRAVITY - GRAVITY
            * spec_cancellations(p, platforms, n),
        spec_run(p, platforms, n).x_velocity == p.x_velocity,
        spec_run(p, platforms, n).x == p.x + n * p.x_velocity,
        spec_run(p, platforms, n).id == p.id,
        spec_run(p, platforms, n).w == p.w,
        spec_run(p, platforms, n).h == p.h,
    decreases n,
{
    if n > 0 {
        let m = (n - 1) as nat;
        lemma_velocity_after_ticks(p, platforms, m);
        let q = spec_run(p, platforms, m);
        lemma_resolve(spec_integrate(q), platforms);
        let hits = spec_hits(spec_integrate(q), platforms);
        let before = spec_cancellations(p, platforms, m);
        assert(GRAVITY * (before + hits) == GRAVITY * before + GRAVITY * hits)
            by (nonlinear_arith);
        assert(n * p.x_velocity == m * p.x_velocity + p.x_velocity) by (nonlinear_arith)
            requires
                n == m + 1,
        ;
        assert(n * GRAVITY == m * GRAVITY + GRAVITY) by (nonlinear_arith)
            requires
                n == m + 1,
        ;
    }
}

/// Free fall: without input, saturation or cancellation, the height after `n`
/// ticks is the start plus `n` times the starting velocity plus gravity times
/// `n (n + 1) / 2`.
pub proof fn lemma_free_fall(p: Player, platforms: Seq<Platform>, n: nat)
    requires
        spec_run_exact(p, platforms, n),
        spec_cancellations(p, platforms, n) == 0,
    ensures
        spec_run(p, platforms, n).y_velocity == p.y_velocity + n * GRAVITY,
        2 * spec_run(p, platforms, n).y == 2 * p.y + 2 * n * p.y_velocity + GRAVITY * n * (n
            + 1),
        spec_run(p, platforms, n).rgb == p.rgb,
    decreases n,
{
    if n > 0 {
        let m = (n - 1) as nat;
        lemma_free_fall(p, platforms, m);
        let q = spec_run(p, platforms, m);
        lemma_resolve(spec_integrate(q), platforms);
        let r = spec_run(p, platforms, n);
        let v: int = p.y_velocity as int;
        let a: int = n as int;
        let b: int = m as int;
        assert(r.y == q.y + q.y_velocity + GRAVITY);
        assert(q.y_velocity == v + b * GRAVITY);
        assert(a * GRAVITY == b * GRAVITY + GRAVITY) by (nonlinear_arith)
            requires
                a == b + 1,
        ;
        assert(2 * a * v == 2 * b * v + 2 * v) by (nonlinear_arith)
            requires
                a == b + 1,
        ;
        assert(GRAVITY * a * (a + 1) == GRAVITY * b * (b + 1) + 2 * (b * GRAVITY) + 2 * GRAVITY)
            by (nonlinear_arith)
            requires
                a == b + 1,
        ;
    } else {
        assert(2 * n * p.y_velocity + GRAVITY * n * (n + 1) == 0) by (nonlinear_arith)
            requires
                n == 0,
        ;
    }
}

} // verus!
