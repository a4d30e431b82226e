use vstd::prelude::*;

use crate::entities::moved;
use crate::game::{is_level_asteroid, DisruptionType, Game, DISRUPTION_FRAMES, LEVEL_PAUSE_FRAMES};
use crate::geometry::{in_field, near_field, wrapped, Vector, FIELD_HEIGHT, FIELD_WIDTH, VELOCITY_LIMIT};
use crate::entities::Asteroid;
use crate::rules::{hit_points, points, spawn_count};

verus! {

/// Wrapping keeps a coordinate within `[0, bound]`; it stays below `bound` unless the moved
/// coordinate fell below 0, which the wrap rule sends to `bound` itself, or landed exactly on
/// `bound`.
pub proof fn lemma_wrap_in_range(v: int, bound: int)
    requires
        bound > 0,
    ensures
        0 <= wrapped(v, bound) <= bound,
        v >= 0 && v != bound ==> wrapped(v, bound) < bound,
{
}

/// Moving a point of the field, or of the band around it, by any bounded displacement leaves
/// it on the field.
pub proof fn lemma_motion_stays_in_field(p: Vector, d: Vector)
    requires
        near_field(p),
        -4 * VELOCITY_LIMIT <= d.x <= 4 * VELOCITY_LIMIT,
        -4 * VELOCITY_LIMIT <= d.y <= 4 * VELOCITY_LIMIT,
    ensures
        in_field(moved(p, d)),
{
    lemma_wrap_in_range(p.x + d.x, FIELD_WIDTH as int);
    lemma_wrap_in_range(p.y + d.y, FIELD_HEIGHT as int);
}

/// After any frame, the ship, every asteroid and every shock wave lies on the field. Bullets
/// lie on the field once they have moved (see `Bullet::advance`); one fired since its last
/// move may still lie in the band around the field where it was spawned.
pub proof fn lemma_update_keeps_entities_in_field(g: Game, h: Game)
    requires
        g.wf(),
        h.wf(),
        h.is_update_of(g),
    ensures
        in_field(h.ship.position),
        forall|i: int| 0 <= i < h.bullets@.len() ==> near_field(#[trigger] h.bullets@[i].position),
        forall|i: int|
            0 <= i < h.asteroids@.len() ==> in_field(#[trigger] h.asteroids@[i].position),
        forall|i: int|
            0 <= i < h.shock_waves@.len() ==> in_field(#[trigger] h.shock_waves@[i].position),
{
    assert forall|i: int| 0 <= i < h.bullets@.len() implies near_field(
        #[trigger] h.bullets@[i].position,
    ) by {
        assert(h.bullets@[i].wf());
    }
    assert forall|i: int| 0 <= i < h.asteroids@.len() implies in_field(
        #[trigger] h.asteroids@[i].position,
    ) by {
        assert(h.asteroids@[i].wf());
    }
    assert forall|i: int| 0 <= i < h.shock_waves@.len() implies in_field(
        #[trigger] h.shock_waves@[i].position,
    ) by {
        assert(h.shock_waves@[i].wf());
    }
}

/// While the respawn timer is at 2 or more, a frame of play costs no life: the ship cannot be
/// struck, and the timer only counts down.
pub proof fn lemma_invulnerable_while_respawning(g: Game, h: Game)
    requires
        g.wf(),
        !g.game_over,
        g.level_transition_timer == 0,
        g.respawn_timer >= 2,
        h.is_update_of(g),
    ensures
        !g.ship_struck(),
        h.lives == g.lives,
        !h.game_over,
        h.respawn_timer == g.respawn_timer - 1,
{
    reveal(Game::flying_step);
}

/// The frames right after a non-fatal hit: the ship is struck at none of the next
/// `RESPAWN_FRAMES - 1` frames of play, so no life is lost.
pub proof fn lemma_invulnerability_window(frames: Seq<Game>)
    requires
        frames.len() >= 1,
        frames.len() <= crate::game::RESPAWN_FRAMES,
        frames[0].wf(),
        !frames[0].game_over,
        frames[0].level_transition_timer == 0,
        frames[0].respawn_timer == crate::game::RESPAWN_FRAMES,
        forall|i: int| 0 < i < frames.len() ==> (#[trigger] frames[i]).wf(),
        forall|i: int| 0 < i < frames.len() ==> (#[trigger] frames[i]).is_update_of(frames[i - 1]),
        forall|i: int| 0 < i < frames.len() ==> (#[trigger] frames[i]).level_transition_timer == 0,
    ensures
        forall|i: int| 0 <= i < frames.len() ==> (#[trigger] frames[i]).lives == frames[0].lives,
        forall|i: int| 0 <= i < frames.len() ==> !(#[trigger] frames[i]).game_over,
        forall|i: int|
            0 <= i < frames.len() ==> (#[trigger] frames[i]).respawn_timer
                == crate::game::RESPAWN_FRAMES - i,
    decreases frames.len(),
{
    if frames.len() > 1 {
        let prefix = frames.drop_last();
        assert forall|i: int| 0 < i < prefix.len() implies (#[trigger] prefix[i]).wf()
            && prefix[i].is_update_of(prefix[i - 1]) && prefix[i].level_transition_timer == 0 by {
            assert(prefix[i] == frames[i]);
            assert(prefix[i - 1] == frames[i - 1]);
        }
        lemma_invulnerability_window(prefix);
        let n = frames.len() - 1;
        assert(prefix[n - 1] == frames[n - 1]);
        lemma_invulnerable_while_respawning(frames[n - 1], frames[n]);
        assert forall|i: int| 0 <= i < frames.len() implies (#[trigger] frames[i]).lives
            == frames[0].lives && frames[i].respawn_timer == crate::game::RESPAWN_FRAMES - i
            && !frames[i].game_over by {
            if i < n {
                assert(prefix[i] == frames[i]);
            }
        }
    }
}

/// A level transition lasts `LEVEL_PAUSE_FRAMES` frames: during them nothing but the pause
/// timer changes, and at the last of them the next level's asteroids arrive.
pub proof fn lemma_level_pacing(frames: Seq<Game>)
    requires
        frames.len() == LEVEL_PAUSE_FRAMES + 1,
        !frames[0].game_over,
        frames[0].level_transition_timer == LEVEL_PAUSE_FRAMES,
        forall|i: int| 0 < i < frames.len() ==> (#[trigger] frames[i]).is_update_of(frames[i - 1]),
    ensures
        forall|i: int|
            0 <= i < frames.len() ==> (#[trigger] frames[i]).level_transition_timer
                == LEVEL_PAUSE_FRAMES - i,
        forall|i: int|
            0 <= i < frames.len() ==> {
                &&& (#[trigger] frames[i]).ship == frames[0].ship
                &&& frames[i].bullets@ == frames[0].bullets@
                &&& frames[i].shock_waves@ == frames[0].shock_waves@
                &&& frames[i].score == frames[0].score
                &&& frames[i].lives == frames[0].lives
                &&& frames[i].level == frames[0].level
                &&& !frames[i].game_over
            },
        forall|i: int| 0 <= i < LEVEL_PAUSE_FRAMES ==> (#[trigger] frames[i]).asteroids@
            == frames[0].asteroids@,
        frames[LEVEL_PAUSE_FRAMES as int].asteroids@.len() == spawn_count(frames[0].level as int),
        forall|i: int|
            0 <= i < frames[LEVEL_PAUSE_FRAMES as int].asteroids@.len() ==> is_level_asteroid(
                #[trigger] frames[LEVEL_PAUSE_FRAMES as int].asteroids@[i],
            ),
{
    lemma_pause_prefix(frames, frames.len() as int);
    let last = LEVEL_PAUSE_FRAMES as int;
    assert(frames[last].paused_step(frames[last - 1]));
    reveal(Game::paused_step);
}

proof fn lemma_pause_prefix(frames: Seq<Game>, k: int)
    requires
        1 <= k <= frames.len(),
        frames.len() == LEVEL_PAUSE_FRAMES + 1,
        !frames[0].game_over,
        frames[0].level_transition_timer == LEVEL_PAUSE_FRAMES,
        forall|i: int| 0 < i < frames.len() ==> (#[trigger] frames[i]).is_update_of(frames[i - 1]),
    ensures
        forall|i: int|
            0 <= i < k ==> {
                &&& (#[trigger] frames[i]).level_transition_timer == LEVEL_PAUSE_FRAMES - i
                &&& frames[i].ship == frames[0].ship
                &&& frames[i].bullets@ == frames[0].bullets@
                &&& frames[i].shock_waves@ == frames[0].shock_waves@
                &&& frames[i].score == frames[0].score
                &&& frames[i].lives == frames[0].lives
                &&& frames[i].level == frames[0].level
                &&& !frames[i].game_over
                &&& i < LEVEL_PAUSE_FRAMES ==> frames[i].asteroids@ == frames[0].asteroids@
            },
    decreases k,
{
    if k > 1 {
        lemma_pause_prefix(frames, k - 1);
        let j = k - 1;
        assert(frames[j].is_update_of(frames[j - 1]));
        assert(frames[j].paused_step(frames[j - 1]));
        reveal(Game::paused_step);
    }
}

/// A disruption that nothing renews runs out exactly `DISRUPTION_FRAMES` frames of play after
/// it starts, and the controls are then back to normal.
pub proof fn lemma_disruption_expires(frames: Seq<Game>)
    requires
        frames.len() == DISRUPTION_FRAMES + 1,
        frames[0].wf(),
        frames[0].disruption_timer == DISRUPTION_FRAMES,
        forall|i: int| 0 <= i < frames.len() ==> !(#[trigger] frames[i]).game_over,
        forall|i: int| 0 <= i < frames.len() ==> (#[trigger] frames[i]).level_transition_timer
            == 0 || i == frames.len() - 1,
        forall|i: int| 0 < i < frames.len() ==> (#[trigger] frames[i]).disruption_timer
            != DISRUPTION_FRAMES,
        forall|i: int| 0 < i < frames.len() ==> (#[trigger] frames[i]).wf(),
        forall|i: int| 0 < i < frames.len() ==> (#[trigger] frames[i]).is_update_of(frames[i - 1]),
    ensures
        forall|i: int|
            0 <= i < frames.len() ==> (#[trigger] frames[i]).disruption_timer
                == DISRUPTION_FRAMES - i,
        frames[DISRUPTION_FRAMES as int].disruption_timer == 0,
        frames[DISRUPTION_FRAMES as int].disruption_type == DisruptionType::Normal,
{
    lemma_disruption_prefix(frames, frames.len() as int);
    let last = DISRUPTION_FRAMES as int;
    let h = frames[last];
    assert(h.disruption_timer == 0);
    assert(h.wf());
}

/// In a frame of play the disruption timer counts down by one, unless a special asteroid
/// is destroyed, which sets it to `DISRUPTION_FRAMES` again.
pub proof fn lemma_disruption_tick(g: Game, h: Game)
    requires
        !g.game_over,
        g.level_transition_timer == 0,
        h.is_update_of(g),
    ensures
        h.disruption_timer == crate::game::after_tick(g.disruption_timer) || h.disruption_timer
            == DISRUPTION_FRAMES,
{
    if g.ship_struck() {
        reveal(Game::struck_step);
    } else {
        reveal(Game::flying_step);
        let bs = crate::entities::advanced_bullets(g.bullets@);
        let asts = crate::entities::advanced_asteroids(
            g.asteroids@,
            crate::rules::speed_tenths(g.level as int),
        );
        let m = choose|m: Seq<Option<usize>>|
            crate::rules::is_first_hit_matching(bs, asts, m) && #[trigger] crate::game::hits_resolved(
                h,
                h.hit_sounds(),
                bs,
                asts,
                g.score,
                g.level,
                crate::entities::advanced_shock_waves(g.shock_waves@),
                g.sounds@,
                crate::game::after_tick(g.disruption_timer),
                g.ticked_type(),
                g.ticked_force(),
                g.rng.state,
                m,
            );
    }
}

proof fn lemma_disruption_prefix(frames: Seq<Game>, k: int)
    requires
        1 <= k <= frames.len(),
        frames.len() == DISRUPTION_FRAMES + 1,
        frames[0].disruption_timer == DISRUPTION_FRAMES,
        forall|i: int| 0 <= i < frames.len() ==> !(#[trigger] frames[i]).game_over,
        forall|i: int| 0 <= i < frames.len() ==> (#[trigger] frames[i]).level_transition_timer
            == 0 || i == frames.len() - 1,
        forall|i: int| 0 < i < frames.len() ==> (#[trigger] frames[i]).disruption_timer
            != DISRUPTION_FRAMES,
        forall|i: int| 0 < i < frames.len() ==> (#[trigger] frames[i]).is_update_of(frames[i - 1]),
    ensures
        forall|i: int|
            0 <= i < k ==> (#[trigger] frames[i]).disruption_timer == DISRUPTION_FRAMES - i,
    decreases k,
{
    if k > 1 {
        lemma_disruption_prefix(frames, k - 1);
        let j = k - 1;
        let g = frames[j - 1];
        let h = frames[j];
        assert(h.is_update_of(g));
        assert(g.disruption_timer == DISRUPTION_FRAMES - (j - 1));
        lemma_disruption_tick(g, h);
        assert(h.disruption_timer == DISRUPTION_FRAMES - j);
    }
}

/// When a frame destroys exactly one asteroid, the score rises by that asteroid's points
/// alone, however many bullets reached it: 20 for a large ordinary asteroid, 50 for a medium
/// one, 100 for a small or a special one, each times the level's score multiplier.
pub proof fn lemma_single_kill_score(s: Seq<Asteroid>, gone: Seq<bool>, j: int, level: int)
    requires
        0 <= j < s.len(),
        gone.len() == s.len(),
        gone[j],
        forall|k: int| 0 <= k < s.len() && k != j ==> !#[trigger] gone[k],
    ensures
        hit_points(s, gone, level) == points(s[j].size as int, s[j].is_special, level),
{
    lemma_no_kill_no_points(s.take(j), gone, level);
    lemma_points_prefix(s, gone, j, level);
}

proof fn lemma_no_kill_no_points(s: Seq<Asteroid>, gone: Seq<bool>, level: int)
    requires
        forall|k: int| 0 <= k < s.len() ==> !#[trigger] gone[k],
    ensures
        hit_points(s, gone, level) == 0,
    decreases s.len(),
{
    if s.len() > 0 {
        lemma_no_kill_no_points(s.drop_last(), gone, level);
    }
}

/// Past the one destroyed asteroid at `j`, the points stay those of `j`.
proof fn lemma_points_prefix(s: Seq<Asteroid>, gone: Seq<bool>, j: int, level: int)
    requires
        0 <= j < s.len(),
        gone[j],
        forall|k: int| 0 <= k < s.len() && k != j ==> !#[trigger] gone[k],
        hit_points(s.take(j), gone, level) == 0,
    ensures
        hit_points(s, gone, level) == points(s[j].size as int, s[j].is_special, level),
    decreases s.len(),
{
    if s.len() == j + 1 {
        assert(s.drop_last() =~= s.take(j));
    } else {
        let d = s.drop_last();
        assert(d.take(j) =~= s.take(j));
        lemma_points_prefix(d, gone, j, level);
    }
}

/// Clearing the last asteroid in a frame of play raises the level by one, starts a pause of
/// `LEVEL_PAUSE_FRAMES` frames, and signals `LevelComplete` once, after the frame's other
/// sounds.
pub proof fn lemma_level_complete(g: Game, h: Game)
    requires
        !g.game_over,
        g.level_transition_timer == 0,
        !g.ship_struck(),
        g.level < u32::MAX,
        h.is_update_of(g),
        h.asteroids@.len() == 0,
    ensures
        h.level == g.level + 1,
        h.level_transition_timer == LEVEL_PAUSE_FRAMES,
        h.sounds@.len() > 0,
        h.sounds@.last() == crate::game::Sound::LevelComplete,
        h.sounds@.drop_last() == h.hit_sounds(),
{
    reveal(Game::flying_step);
}

/// Once the game is over, frames change nothing: score, level, lives and every entity stay as
/// they were.
pub proof fn lemma_game_over_is_terminal(frames: Seq<Game>)
    requires
        frames.len() >= 1,
        frames[0].game_over,
        forall|i: int| 0 < i < frames.len() ==> (#[trigger] frames[i]).is_update_of(frames[i - 1]),
    ensures
        forall|i: int| 0 <= i < frames.len() ==> (#[trigger] frames[i]).same_as(frames[0]),
        forall|i: int| 0 <= i < frames.len() ==> (#[trigger] frames[i]).game_over,
    decreases frames.len(),
{
    if frames.len() > 1 {
        let prefix = frames.drop_last();
        assert forall|i: int| 0 < i < prefix.len() implies (#[trigger] prefix[i]).is_update_of(
            prefix[i - 1],
        ) by {
            assert(prefix[i] == frames[i]);
            assert(prefix[i - 1] == frames[i - 1]);
        }
        lemma_game_over_is_terminal(prefix);
        let n = frames.len() - 1;
        assert(prefix[n - 1] == frames[n - 1]);
        assert forall|i: int| 0 <= i < frames.len() implies (#[trigger] frames[i]).same_as(
            frames[0],
        ) && frames[i].game_over by {
            if i < n {
                assert(prefix[i] == frames[i]);
            }
        }
    }
}

} // verus!
