use vstd::prelude::*;

use crate::entities::{
    OPAQUE, SHOCKWAVE_LIFETIME, SHOCKWAVE_MAX_RADIUS,
    advance_asteroids, advance_bullets, advance_shock_waves, advanced_asteroids,
    advanced_bullets, advanced_shock_waves, Asteroid, Bullet, Ship, ShockWave,
};
use crate::geometry::{
    across_heading, along_heading, clamped, FIELD_HEIGHT, FIELD_WIDTH, heading_vector, is_within,
    sideways_vector, within, Vector, FULL_TURN,
};
use crate::rng::{drawn, next_state, Rng};
use crate::rules::{
    child_count, hit_points, splits, is_first_hit_matching, match_hits, matched, points_for,
    saturating_sum, spawn_count, spawn_count_of, speed_tenths, speed_tenths_of, special_count, split, survivors, taken_by,
    BASE_ASTEROID_SIZE,
};

verus! {

pub const START_LIVES: u32 = 3;

/// Frames of invulnerability after the ship is hit.
pub const RESPAWN_FRAMES: u32 = 180;

/// Frames of pause between clearing a level and the next level's asteroids.
pub const LEVEL_PAUSE_FRAMES: u32 = 300;

/// Frames a disruption lasts.
pub const DISRUPTION_FRAMES: u32 = 120;

/// Added to an asteroid's size when testing it against the ship.
pub const SHIP_HIT_PADDING: i64 = 10_000;

pub const THRUST_IMPULSE: i64 = 100;

/// Strength of the drift force of an uncontrollable ship.
pub const DRIFT_FORCE: i64 = 200;

/// One asteroid of a level in this many is special, on average.
pub const SPECIAL_ODDS: u64 = 50;

/// Frames per second of the conventional cadence, used for the countdown.
pub const FRAMES_PER_SECOND: u32 = 60;

/// How a special asteroid impairs the ship's controls.
#[derive(Clone, Copy, Debug, PartialEq, Eq, Structural)]
pub enum DisruptionType {
    Normal,
    Disabled,
    Scrambled,
    Uncontrollable,
}

/// A named sound event for the audio side to play.
#[derive(Clone, Copy, Debug, PartialEq, Eq, Structural)]
pub enum Sound {
    Shoot,
    Explosion,
    SpecialExplosion,
    Thrust,
    LevelComplete,
}

/// What the screen shows beside the entities.
#[derive(Clone, Copy, Debug, PartialEq, Eq, Structural)]
pub struct Overlay {
    pub score: u64,
    pub level: u32,
    pub lives: u32,
    /// The active disruption, `Normal` when there is none.
    pub banner: DisruptionType,
    /// Seconds left before the next level, 0 outside a level transition.
    pub countdown: u32,
    /// Whether entities are drawn: not during a level transition.
    pub show_entities: bool,
    /// Whether the ship is drawn; it blinks while invulnerable.
    pub show_ship: bool,
    pub game_over: bool,
}

/// The whole state of a game.
pub struct Game {
    pub ship: Ship,
    pub asteroids: Vec<Asteroid>,
    pub bullets: Vec<Bullet>,
    pub shock_waves: Vec<ShockWave>,
    pub game_over: bool,
    pub score: u64,
    pub lives: u32,
    pub level: u32,
    pub respawn_timer: u32,
    pub level_transition_timer: u32,
    pub disruption_type: DisruptionType,
    pub disruption_timer: u32,
    pub uncontrollable_force: Vector,
    pub rng: Rng,
    /// Sound events not yet collected by `take_sounds`.
    pub sounds: Vec<Sound>,
}

pub open spec fn center() -> Vector {
    Vector { x: 400_000, y: 300_000 }
}

pub open spec fn drift_bounded(v: Vector) -> bool {
    -DRIFT_FORCE <= v.x <= DRIFT_FORCE && -DRIFT_FORCE <= v.y <= DRIFT_FORCE
}

/// A timer after one frame's tick: it counts down to 0 and stays there.
pub open spec fn after_tick(t: u32) -> u32 {
    if t > 0 {
        (t - 1) as u32
    } else {
        0
    }
}

/// The level after `level` is cleared, held at the largest `u32`.
pub open spec fn next_level(level: u32) -> u32 {
    if level < u32::MAX {
        (level + 1) as u32
    } else {
        level
    }
}

/// Whether an asteroid reaches the ship: closer than its size plus the ship's padding.
pub open spec fn touches(s: Ship, a: Asteroid) -> bool {
    within(s.position, a.position, a.size + SHIP_HIT_PADDING)
}

/// A freshly spawned asteroid of a level: strictly inside the field, of base size, at base
/// speed.
pub open spec fn is_level_asteroid(a: Asteroid) -> bool {
    &&& a.wf()
    &&& a.position.x < FIELD_WIDTH
    &&& a.position.y < FIELD_HEIGHT
    &&& a.size == BASE_ASTEROID_SIZE
    &&& a.pulse == 0
    &&& exists|h: int|
        0 <= h < FULL_TURN && a.velocity == heading_vector(h, crate::entities::ASTEROID_SPEED as int)
}

/// The state `n` steps after `s` in the generator's sequence.
pub open spec fn nth_state(s: u64, n: nat) -> u64
    decreases n,
{
    if n == 0 {
        s
    } else {
        next_state(nth_state(s, (n - 1) as nat))
    }
}

/// The asteroid a level spawns from generator state `s`: the next four draws give its x, its
/// y, its heading, and whether it is special (one chance in `SPECIAL_ODDS`).
pub open spec fn level_asteroid_from(s: u64) -> Asteroid {
    let s1 = next_state(s);
    let s2 = next_state(s1);
    let s3 = next_state(s2);
    let s4 = next_state(s3);
    Asteroid {
        position: Vector {
            x: drawn(s1, FIELD_WIDTH as int) as i64,
            y: drawn(s2, FIELD_HEIGHT as int) as i64,
        },
        velocity: heading_vector(drawn(s3, FULL_TURN as int), crate::entities::ASTEROID_SPEED as int),
        size: BASE_ASTEROID_SIZE,
        is_special: drawn(s4, SPECIAL_ODDS as int) == 0,
        pulse: 0,
    }
}

/// `asts` are the asteroids of `level` spawned from generator state `s`, in order.
pub open spec fn spawned_from(asts: Seq<Asteroid>, s: u64, level: int) -> bool {
    &&& asts.len() == spawn_count(level)
    &&& forall|i: int|
        0 <= i < asts.len() ==> #[trigger] asts[i] == level_asteroid_from(nth_state(s, (4 * i) as nat))
}

/// A child of `parent` by fission: at its position, of half its size, ordinary, and moving at
/// base speed along some heading.
pub open spec fn is_child_of(kid: Asteroid, parent: Asteroid) -> bool {
    &&& kid.position == parent.position
    &&& kid.size == parent.size / 2
    &&& !kid.is_special
    &&& kid.pulse == 0
    &&& exists|h: int|
        0 <= h < FULL_TURN && kid.velocity == heading_vector(
            h,
            crate::entities::ASTEROID_SPEED as int,
        )
}

/// `kids` are the children of the asteroids of `s` flagged in `gone`, in order: two of each
/// one that splits.
pub open spec fn offspring_of(kids: Seq<Asteroid>, s: Seq<Asteroid>, gone: Seq<bool>) -> bool
    decreases s.len(),
{
    if s.len() == 0 {
        kids.len() == 0
    } else {
        let c = child_count(s.drop_last(), gone);
        let p = s.last();
        &&& kids.len() == child_count(s, gone)
        &&& 0 <= c <= kids.len()
        &&& offspring_of(kids.take(c), s.drop_last(), gone)
        &&& gone[s.len() - 1] && splits(p) ==> is_child_of(kids[c], p) && is_child_of(
            kids[c + 1],
            p,
        )
    }
}

/// The shock wave a special asteroid leaves where it is destroyed.
pub open spec fn fresh_wave(p: Vector) -> ShockWave {
    ShockWave {
        position: p,
        radius: 0,
        max_radius: SHOCKWAVE_MAX_RADIUS,
        alpha: OPAQUE,
        lifetime: SHOCKWAVE_LIFETIME,
    }
}

/// The shock waves left, in order, by the special asteroids of `s` flagged in `gone`.
pub open spec fn blasts(s: Seq<Asteroid>, gone: Seq<bool>) -> Seq<ShockWave>
    decreases s.len(),
{
    if s.len() == 0 {
        Seq::empty()
    } else {
        let rest = blasts(s.drop_last(), gone);
        if gone[s.len() - 1] && s.last().is_special {
            rest.push(fresh_wave(s.last().position))
        } else {
            rest
        }
    }
}

/// The disruption picked by a draw in `[0, 3)`: the three kinds in equal thirds.
pub open spec fn disruption_kind(r: int) -> DisruptionType {
    if r == 0 {
        DisruptionType::Disabled
    } else if r == 1 {
        DisruptionType::Scrambled
    } else {
        DisruptionType::Uncontrollable
    }
}

/// The generator state after settling, from state `st`, the asteroids of `s` flagged in `gone`
/// in order: a special one draws its disruption (and a drift heading if uncontrollable), one
/// that splits draws a heading for each child.
pub open spec fn rng_after_hits(s: Seq<Asteroid>, gone: Seq<bool>, st: u64) -> u64
    decreases s.len(),
{
    if s.len() == 0 {
        st
    } else {
        let r = rng_after_hits(s.drop_last(), gone, st);
        let a = s.last();
        if !gone[s.len() - 1] {
            r
        } else if a.is_special {
            if disruption_kind(drawn(next_state(r), 3)) == DisruptionType::Uncontrollable {
                next_state(next_state(r))
            } else {
                next_state(r)
            }
        } else if splits(a) {
            next_state(next_state(r))
        } else {
            r
        }
    }
}

/// The generator state from which the last special asteroid of `s` flagged in `gone` draws
/// its disruption, settling from state `st`.
pub open spec fn last_blast_state(s: Seq<Asteroid>, gone: Seq<bool>, st: u64) -> u64
    decreases s.len(),
{
    if s.len() == 0 {
        st
    } else if gone[s.len() - 1] && s.last().is_special {
        rng_after_hits(s.drop_last(), gone, st)
    } else {
        last_blast_state(s.drop_last(), gone, st)
    }
}

/// What settling the bullet hits under matching `m` leaves: `bs`, `asts` and the other
/// arguments describe the state before, `after` and `sounds_after` the state after.
pub open spec fn hits_resolved(
    after: Game,
    sounds_after: Seq<Sound>,
    bs: Seq<Bullet>,
    asts: Seq<Asteroid>,
    score: u64,
    level: u32,
    waves: Seq<ShockWave>,
    sounds: Seq<Sound>,
    timer: u32,
    kind: DisruptionType,
    force: Vector,
    st: u64,
    m: Seq<Option<usize>>,
) -> bool {
    let gone = taken_by(m, asts.len() as int);
    let kept = survivors(asts, gone);
    let specials = special_count(asts, gone);
    &&& after.bullets@ == survivors(bs, matched(m))
    &&& after.asteroids@.len() == kept.len() + child_count(asts, gone)
    &&& after.asteroids@.take(kept.len() as int) == kept
    &&& offspring_of(after.asteroids@.skip(kept.len() as int), asts, gone)
    &&& after.score == saturating_sum(score as int, hit_points(asts, gone, level as int))
    &&& after.shock_waves@ == waves + blasts(asts, gone)
    &&& sounds_after == sounds + Seq::new(specials as nat, |k: int| Sound::SpecialExplosion)
    &&& after.rng.state == rng_after_hits(asts, gone, st)
    &&& if specials > 0 {
        let d = last_blast_state(asts, gone, st);
        &&& after.disruption_timer == DISRUPTION_FRAMES
        &&& after.disruption_type == disruption_kind(drawn(next_state(d), 3))
        &&& after.disruption_type == DisruptionType::Uncontrollable
            ==> after.uncontrollable_force == heading_vector(
            drawn(next_state(next_state(d)), FULL_TURN as int),
            DRIFT_FORCE as int,
        )
    } else {
        after.disruption_timer == timer && after.disruption_type == kind
            && after.uncontrollable_force == force
    }
}

impl Game {
    pub open spec fn wf(&self) -> bool {
        &&& self.ship.wf()
        &&& forall|i: int| 0 <= i < self.asteroids@.len() ==> (#[trigger] self.asteroids@[i]).wf()
        &&& forall|i: int| 0 <= i < self.bullets@.len() ==> (#[trigger] self.bullets@[i]).wf()
        &&& forall|i: int|
            0 <= i < self.shock_waves@.len() ==> (#[trigger] self.shock_waves@[i]).wf()
        &&& self.level >= 1
        &&& !self.game_over ==> self.lives > 0
        &&& (self.disruption_type != DisruptionType::Normal) <==> self.disruption_timer > 0
        &&& self.disruption_timer <= DISRUPTION_FRAMES
        &&& drift_bounded(self.uncontrollable_force)
    }

    /// The state of a new session, before its asteroids are placed.
    pub open spec fn is_fresh(&self) -> bool {
        &&& self.ship == Ship { position: center(), velocity: Vector { x: 0, y: 0 }, rotation: 0 }
        &&& self.bullets@.len() == 0
        &&& self.shock_waves@.len() == 0
        &&& !self.game_over
        &&& self.score == 0
        &&& self.lives == START_LIVES
        &&& self.level == 1
        &&& self.respawn_timer == 0
        &&& self.level_transition_timer == 0
        &&& self.disruption_type == DisruptionType::Normal
        &&& self.disruption_timer == 0
        &&& self.uncontrollable_force == Vector { x: 0, y: 0 }
        &&& self.sounds@.len() == 0
        &&& self.asteroids@.len() == spawn_count(1)
        &&& forall|i: int|
            0 <= i < self.asteroids@.len() ==> is_level_asteroid(#[trigger] self.asteroids@[i])
    }

    /// A new game at level 1, its pseudo-random choices drawn from `seed`.
    pub fn new(seed: u64) -> (g: Game)
        ensures
            g.wf(),
            g.is_fresh(),
            spawned_from(g.asteroids@, seed, 1),
    {
        let mut g = Game {
            ship: Ship::new(Vector { x: 400_000, y: 300_000 }),
            asteroids: Vec::new(),
            bullets: Vec::new(),
            shock_waves: Vec::new(),
            game_over: false,
            score: 0,
            lives: START_LIVES,
            level: 1,
            respawn_timer: 0,
            level_transition_timer: 0,
            disruption_type: DisruptionType::Normal,
            disruption_timer: 0,
            uncontrollable_force: Vector { x: 0, y: 0 },
            rng: Rng::new(seed),
            sounds: Vec::new(),
        };
        g.spawn_level_asteroids();
        g
    }

    /// Replaces the asteroids with those of the current level, at random places and headings;
    /// each is special with odds of one in `SPECIAL_ODDS`.
    pub fn spawn_level_asteroids(&mut self)
        requires
            old(self).level >= 1,
        ensures
            spawned_from(final(self).asteroids@, old(self).rng.state, old(self).level as int),
            final(self).rng.state == nth_state(
                old(self).rng.state,
                (4 * spawn_count(old(self).level as int)) as nat,
            ),
            forall|i: int|
                0 <= i < final(self).asteroids@.len() ==> is_level_asteroid(
                    #[trigger] final(self).asteroids@[i],
                ),
            final(self).ship == old(self).ship,
            final(self).bullets@ == old(self).bullets@,
            final(self).shock_waves@ == old(self).shock_waves@,
            final(self).game_over == old(self).game_over,
            final(self).score == old(self).score,
            final(self).lives == old(self).lives,
            final(self).level == old(self).level,
            final(self).respawn_timer == old(self).respawn_timer,
            final(self).level_transition_timer == old(self).level_transition_timer,
            final(self).disruption_type == old(self).disruption_type,
            final(self).disruption_timer == old(self).disruption_timer,
            final(self).uncontrollable_force == old(self).uncontrollable_force,
            final(self).sounds@ == old(self).sounds@,
    {
        self.asteroids.clear();
        let count = spawn_count_of(self.level);
        let mut n: u64 = 0;
        while n < count
            invariant
                n <= count,
                count == spawn_count(self.level as int),
                self.asteroids@.len() == n,
                self.rng.state == nth_state(old(self).rng.state, (4 * n) as nat),
                forall|i: int|
                    0 <= i < self.asteroids@.len() ==> #[trigger] self.asteroids@[i]
                        == level_asteroid_from(nth_state(old(self).rng.state, (4 * i) as nat)),
                forall|i: int|
                    0 <= i < self.asteroids@.len() ==> is_level_asteroid(
                        #[trigger] self.asteroids@[i],
                    ),
                self.ship == old(self).ship,
                self.bullets@ == old(self).bullets@,
                self.shock_waves@ == old(self).shock_waves@,
                self.game_over == old(self).game_over,
                self.score == old(self).score,
                self.lives == old(self).lives,
                self.level == old(self).level,
                self.respawn_timer == old(self).respawn_timer,
                self.level_transition_timer == old(self).level_transition_timer,
                self.disruption_type == old(self).disruption_type,
                self.disruption_timer == old(self).disruption_timer,
                self.uncontrollable_force == old(self).uncontrollable_force,
                self.sounds@ == old(self).sounds@,
            decreases count - n,
        {
            let ghost st = self.rng.state;
            proof {
                assert(nth_state(old(self).rng.state, (4 * n + 1) as nat) == next_state(st));
                assert(nth_state(old(self).rng.state, (4 * n + 2) as nat) == next_state(next_state(st)));
                assert(nth_state(old(self).rng.state, (4 * n + 3) as nat) == next_state(
                    next_state(next_state(st)),
                ));
                assert(nth_state(old(self).rng.state, (4 * n + 4) as nat) == next_state(
                    next_state(next_state(next_state(st))),
                ));
            }
            let x = self.rng.below(crate::geometry::FIELD_WIDTH as u64) as i64;
            let y = self.rng.below(crate::geometry::FIELD_HEIGHT as u64) as i64;
            let heading = self.rng.below(FULL_TURN as u64) as i64;
            let roll = self.rng.below(SPECIAL_ODDS);
            let pos = Vector { x, y };
            let a = if roll == 0 {
                Asteroid::new_special(pos, heading, BASE_ASTEROID_SIZE)
            } else {
                Asteroid::new(pos, heading, BASE_ASTEROID_SIZE)
            };
            assert(a == level_asteroid_from(st));
            assert(is_level_asteroid(a));
            self.asteroids.push(a);
            n = n + 1;
        }
    }

    /// Turns the ship by `angle` tenths of a degree: not at all while disabled, the other way
    /// while scrambled.
    pub fn rotate(&mut self, angle: i32)
        requires
            old(self).wf(),
        ensures
            final(self).wf(),
            final(self).ship.rotation == if old(self).disruption_type == DisruptionType::Disabled {
                old(self).ship.rotation as int
            } else if old(self).disruption_type == DisruptionType::Scrambled {
                (old(self).ship.rotation - angle) % (FULL_TURN as int)
            } else {
                (old(self).ship.rotation + angle) % (FULL_TURN as int)
            },
            final(self).ship.position == old(self).ship.position,
            final(self).ship.velocity == old(self).ship.velocity,
            final(self).only_ship_changed(*old(self)),
            final(self).sounds@ == old(self).sounds@,
    {
        if self.disruption_type == DisruptionType::Disabled {
            return;
        }
        let a: i64 = if self.disruption_type == DisruptionType::Scrambled {
            -(angle as i64)
        } else {
            angle as i64
        };
        let shifted: i64 = self.ship.rotation + a + FULL_TURN * 600_000;
        proof {
            assert(shifted % 3600 == (self.ship.rotation + a) % 3600) by (nonlinear_arith)
                requires shifted == self.ship.rotation + a + 3600 * 600_000;
        }
        self.ship.rotation = shifted % FULL_TURN;
    }

    /// Everything but the ship, the sounds and the random state is as in `g`.
    pub open spec fn only_ship_changed(&self, g: Game) -> bool {
        &&& self.asteroids@ == g.asteroids@
        &&& self.bullets@ == g.bullets@
        &&& self.shock_waves@ == g.shock_waves@
        &&& self.game_over == g.game_over
        &&& self.score == g.score
        &&& self.lives == g.lives
        &&& self.level == g.level
        &&& self.respawn_timer == g.respawn_timer
        &&& self.level_transition_timer == g.level_transition_timer
        &&& self.disruption_type == g.disruption_type
        &&& self.disruption_timer == g.disruption_timer
        &&& self.uncontrollable_force == g.uncontrollable_force
    }

    /// Pushes the ship forward, or sideways while scrambled, and signals `Thrust`; does nothing
    /// while disabled.
    pub fn thrust(&mut self)
        requires
            old(self).wf(),
        ensures
            final(self).wf(),
            final(self).only_ship_changed(*old(self)),
            final(self).ship.position == old(self).ship.position,
            final(self).ship.rotation == old(self).ship.rotation,
            old(self).disruption_type == DisruptionType::Disabled ==> final(self).ship == old(
                self,
            ).ship && final(self).sounds@ == old(self).sounds@,
            old(self).disruption_type != DisruptionType::Disabled ==> {
                let d = if old(self).disruption_type == DisruptionType::Scrambled {
                    sideways_vector(old(self).ship.rotation as int, THRUST_IMPULSE as int)
                } else {
                    heading_vector(old(self).ship.rotation as int, THRUST_IMPULSE as int)
                };
                &&& final(self).ship.velocity.x == clamped(old(self).ship.velocity.x + d.x)
                &&& final(self).ship.velocity.y == clamped(old(self).ship.velocity.y + d.y)
                &&& final(self).sounds@ == old(self).sounds@.push(Sound::Thrust)
            },
    {
        if self.disruption_type == DisruptionType::Disabled {
            return;
        }
        let d = if self.disruption_type == DisruptionType::Scrambled {
            across_heading(self.ship.rotation, THRUST_IMPULSE)
        } else {
            along_heading(self.ship.rotation, THRUST_IMPULSE)
        };
        self.ship.push(d);
        self.sounds.push(Sound::Thrust);
    }

    /// Fires a bullet from the ship and signals `Shoot`; does nothing while disabled.
    pub fn shoot(&mut self)
        requires
            old(self).wf(),
        ensures
            final(self).wf(),
            final(self).ship == old(self).ship,
            final(self).asteroids@ == old(self).asteroids@,
            final(self).shock_waves@ == old(self).shock_waves@,
            final(self).game_over == old(self).game_over,
            final(self).score == old(self).score,
            final(self).lives == old(self).lives,
            final(self).level == old(self).level,
            final(self).respawn_timer == old(self).respawn_timer,
            final(self).level_transition_timer == old(self).level_transition_timer,
            final(self).disruption_type == old(self).disruption_type,
            final(self).disruption_timer == old(self).disruption_timer,
            final(self).uncontrollable_force == old(self).uncontrollable_force,
            old(self).disruption_type == DisruptionType::Disabled ==> final(self).bullets@ == old(
                self,
            ).bullets@ && final(self).sounds@ == old(self).sounds@,
            old(self).disruption_type != DisruptionType::Disabled ==> final(self).bullets@ == old(
                self,
            ).bullets@.push(Bullet::spec_fired_from(old(self).ship)) && final(self).sounds@ == old(
                self,
            ).sounds@.push(Sound::Shoot),
    {
        if self.disruption_type == DisruptionType::Disabled {
            return;
        }
        let b = Bullet::fired_from(&self.ship);
        self.bullets.push(b);
        self.sounds.push(Sound::Shoot);
    }

    /// Starts a new session at level 1, keeping only the random state.
    pub fn reset(&mut self)
        ensures
            final(self).wf(),
            final(self).is_fresh(),
            spawned_from(final(self).asteroids@, old(self).rng.state, 1),
    {
        self.game_over = false;
        self.ship = Ship::new(Vector { x: 400_000, y: 300_000 });
        self.bullets.clear();
        self.asteroids.clear();
        self.shock_waves.clear();
        self.score = 0;
        self.lives = START_LIVES;
        self.level = 1;
        self.respawn_timer = 0;
        self.level_transition_timer = 0;
        self.disruption_type = DisruptionType::Normal;
        self.disruption_timer = 0;
        self.uncontrollable_force = Vector { x: 0, y: 0 };
        self.sounds.clear();
        self.spawn_level_asteroids();
    }

    /// Starts a disruption of `DISRUPTION_FRAMES` frames, its kind drawn in equal thirds; an
    /// uncontrollable ship also gets a drift force of strength `DRIFT_FORCE` along a drawn
    /// heading.
    pub fn trigger_disruption(&mut self)
        requires
            drift_bounded(old(self).uncontrollable_force),
        ensures
            final(self).disruption_timer == DISRUPTION_FRAMES,
            final(self).disruption_type == disruption_kind(
                drawn(next_state(old(self).rng.state), 3),
            ),
            final(self).disruption_type == DisruptionType::Uncontrollable ==> {
                let h = drawn(next_state(next_state(old(self).rng.state)), FULL_TURN as int);
                &&& 0 <= h < FULL_TURN
                &&& final(self).uncontrollable_force == heading_vector(h, DRIFT_FORCE as int)
                &&& final(self).rng.state == next_state(next_state(old(self).rng.state))
            },
            final(self).disruption_type != DisruptionType::Uncontrollable ==> {
                &&& final(self).uncontrollable_force == old(self).uncontrollable_force
                &&& final(self).rng.state == next_state(old(self).rng.state)
            },
            drift_bounded(final(self).uncontrollable_force),
            final(self).ship == old(self).ship,
            final(self).asteroids@ == old(self).asteroids@,
            final(self).bullets@ == old(self).bullets@,
            final(self).shock_waves@ == old(self).shock_waves@,
            final(self).game_over == old(self).game_over,
            final(self).score == old(self).score,
            final(self).lives == old(self).lives,
            final(self).level == old(self).level,
            final(self).respawn_timer == old(self).respawn_timer,
            final(self).level_transition_timer == old(self).level_transition_timer,
            final(self).sounds@ == old(self).sounds@,
    {
        self.disruption_timer = DISRUPTION_FRAMES;
        let roll = self.rng.below(3);
        if roll == 0 {
            self.disruption_type = DisruptionType::Disabled;
        } else if roll == 1 {
            self.disruption_type = DisruptionType::Scrambled;
        } else {
            self.disruption_type = DisruptionType::Uncontrollable;
            let heading = self.rng.below(FULL_TURN as u64) as i64;
            self.uncontrollable_force = along_heading(heading, DRIFT_FORCE);
        }
    }

    /// Settles this frame's bullet hits: matched bullets and asteroids go, points are scored,
    /// ordinary asteroids split, and special ones leave a shock wave, signal
    /// `SpecialExplosion` and start a disruption.
    pub fn resolve_hits(&mut self)
        requires
            old(self).wf(),
        ensures
            final(self).wf(),
            exists|m: Seq<Option<usize>>|
                is_first_hit_matching(old(self).bullets@, old(self).asteroids@, m) && #[trigger] hits_resolved(
                    *final(self),
                    final(self).sounds@,
                    old(self).bullets@,
                    old(self).asteroids@,
                    old(self).score,
                    old(self).level,
                    old(self).shock_waves@,
                    old(self).sounds@,
                    old(self).disruption_timer,
                    old(self).disruption_type,
                    old(self).uncontrollable_force,
                    old(self).rng.state,
                    m,
                ),
            final(self).ship == old(self).ship,
            final(self).game_over == old(self).game_over,
            final(self).lives == old(self).lives,
            final(self).level == old(self).level,
            final(self).respawn_timer == old(self).respawn_timer,
            final(self).level_transition_timer == old(self).level_transition_timer,
    {
        let (m, taken) = match_hits(&self.bullets, &self.asteroids);
        let ghost gone = taken_by(m@, self.asteroids@.len() as int);
        let ghost bs = self.bullets@;
        let ghost asts = self.asteroids@;
        let ghost g0 = *self;
        assert(taken@ =~= gone);
        let mut kept_bullets: Vec<Bullet> = Vec::new();
        let mut i: usize = 0;
        while i < self.bullets.len()
            invariant
                self.bullets@ == bs,
                m@.len() == bs.len(),
                i <= bs.len(),
                kept_bullets@ == survivors(bs.take(i as int), matched(m@)),
                forall|q: int| 0 <= q < bs.len() ==> (#[trigger] bs[q]).wf(),
                forall|q: int| 0 <= q < kept_bullets@.len() ==> (#[trigger] kept_bullets@[q]).wf(),
            decreases bs.len() - i,
        {
            proof {
                assert(bs.take(i + 1).drop_last() =~= bs.take(i as int));
                lemma_survivors_wf_bullets(bs.take(i + 1), matched(m@));
            }
            if m[i].is_none() {
                kept_bullets.push(self.bullets[i]);
            }
            i = i + 1;
        }
        let mut kept: Vec<Asteroid> = Vec::new();
        let mut spawned: Vec<Asteroid> = Vec::new();
        let mut j: usize = 0;
        while j < self.asteroids.len()
            invariant
                self.asteroids@ == asts,
                taken@ == gone,
                gone.len() == asts.len(),
                j <= asts.len(),
                self.wf(),
                self.ship == g0.ship,
                self.bullets@ == g0.bullets@,
                self.game_over == g0.game_over,
                self.lives == g0.lives,
                self.level == g0.level,
                self.respawn_timer == g0.respawn_timer,
                self.level_transition_timer == g0.level_transition_timer,
                kept@ == survivors(asts.take(j as int), gone),
                spawned@.len() == child_count(asts.take(j as int), gone),
                forall|q: int| 0 <= q < kept@.len() ==> (#[trigger] kept@[q]).wf(),
                forall|q: int| 0 <= q < spawned@.len() ==> (#[trigger] spawned@[q]).wf(),
                offspring_of(spawned@, asts.take(j as int), gone),
                0 <= hit_points(asts.take(j as int), gone, self.level as int),
                0 <= special_count(asts.take(j as int), gone),
                self.score == saturating_sum(g0.score as int, hit_points(asts.take(j as int), gone, self.level as int)),
                self.shock_waves@ == g0.shock_waves@ + blasts(asts.take(j as int), gone),
                self.sounds@ == g0.sounds@ + Seq::new(
                    special_count(asts.take(j as int), gone) as nat,
                    |k: int| Sound::SpecialExplosion,
                ),
                self.rng.state == rng_after_hits(asts.take(j as int), gone, g0.rng.state),
                special_count(asts.take(j as int), gone) > 0 ==> {
                    let d = last_blast_state(asts.take(j as int), gone, g0.rng.state);
                    &&& self.disruption_timer == DISRUPTION_FRAMES
                    &&& self.disruption_type == disruption_kind(drawn(next_state(d), 3))
                    &&& self.disruption_type == DisruptionType::Uncontrollable
                        ==> self.uncontrollable_force == heading_vector(
                        drawn(next_state(next_state(d)), FULL_TURN as int),
                        DRIFT_FORCE as int,
                    )
                },
                special_count(asts.take(j as int), gone) == 0 ==> self.disruption_timer == g0.disruption_timer
                    && self.disruption_type == g0.disruption_type
                    && self.uncontrollable_force == g0.uncontrollable_force,
            decreases asts.len() - j,
        {
            let a = self.asteroids[j];
            let ghost pre = asts.take(j as int);
            let ghost post = asts.take(j + 1);
            proof {
                assert(post.drop_last() =~= pre);
                assert(post.last() == a);
                lemma_survivors_wf_asteroids(post, gone);
            }
            let ghost sounds0 = self.sounds@;
            let ghost rng0 = self.rng;
            if taken[j] {
                let pts = points_for(a.size, a.is_special, self.level);
                if self.score > u64::MAX - pts {
                    self.score = u64::MAX;
                } else {
                    self.score = self.score + pts;
                }
                if a.is_special {
                    let ghost waves0 = self.shock_waves@;
                    self.shock_waves.push(ShockWave::new(a.position));
                    proof {
                        assert(blasts(post, gone) == blasts(pre, gone).push(fresh_wave(a.position)));
                        assert(self.shock_waves@ =~= g0.shock_waves@ + blasts(post, gone));
                    }
                    self.sounds.push(Sound::SpecialExplosion);
                    self.trigger_disruption();
                    proof {
                        assert(last_blast_state(post, gone, g0.rng.state) == rng0.state);
                        assert(self.rng.state == rng_after_hits(post, gone, g0.rng.state));
                        assert(offspring_of(spawned@, post, gone)) by {
                            assert(spawned@.take(spawned@.len() as int) =~= spawned@);
                        }
                        assert(special_count(post, gone) == special_count(pre, gone) + 1);
                        assert(self.sounds@ == sounds0.push(Sound::SpecialExplosion));
                        assert(self.sounds@ =~= g0.sounds@ + Seq::new(
                            special_count(post, gone) as nat,
                            |k: int| Sound::SpecialExplosion,
                        ));
                    }
                } else {
                    let mut kids = split(&a, &mut self.rng);
                    let ghost spawned0 = spawned@;
                    proof {
                        let c = spawned0.len() as int;
                        let nk = spawned0 + kids@;
                        assert(nk.take(c) =~= spawned0);
                        if splits(a) {
                            assert(nk[c] == kids@[0]);
                            assert(nk[c + 1] == kids@[1]);
                            assert(is_child_of(kids@[0], a));
                            assert(is_child_of(kids@[1], a));
                        }
                        assert(offspring_of(nk, post, gone));
                        assert(last_blast_state(post, gone, g0.rng.state) == last_blast_state(
                            pre,
                            gone,
                            g0.rng.state,
                        ));
                        assert(blasts(post, gone) == blasts(pre, gone));
                        assert(self.sounds@ =~= g0.sounds@ + Seq::new(
                            special_count(post, gone) as nat,
                            |k: int| Sound::SpecialExplosion,
                        ));
                    }
                    spawned.append(&mut kids);
                }
            } else {
                kept.push(a);
                proof {
                    assert(offspring_of(spawned@, post, gone)) by {
                        assert(spawned@.take(spawned@.len() as int) =~= spawned@);
                    }
                    assert(blasts(post, gone) == blasts(pre, gone));
                    assert(last_blast_state(post, gone, g0.rng.state) == last_blast_state(
                        pre,
                        gone,
                        g0.rng.state,
                    ));
                    assert(self.sounds@ =~= g0.sounds@ + Seq::new(
                        special_count(post, gone) as nat,
                        |k: int| Sound::SpecialExplosion,
                    ));
                }
            }
            j = j + 1;
        }
        proof {
            assert(bs.take(bs.len() as int) =~= bs);
            assert(asts.take(asts.len() as int) =~= asts);
        }
        let ghost survivors_len = kept@.len();
        let ghost spawned_before = spawned;
        kept.append(&mut spawned);
        self.bullets = kept_bullets;
        self.asteroids = kept;
        proof {
            assert(self.asteroids@.take(survivors_len as int) =~= survivors(asts, gone));
            assert(self.asteroids@.skip(survivors_len as int) =~= spawned_before@);
            assert(hits_resolved(
                *self,
                self.sounds@,
                g0.bullets@,
                g0.asteroids@,
                g0.score,
                g0.level,
                g0.shock_waves@,
                g0.sounds@,
                g0.disruption_timer,
                g0.disruption_type,
                g0.uncontrollable_force,
                g0.rng.state,
                m@,
            ));
        }
    }

    /// The disruption in force once this frame's tick of its timer is done.
    pub open spec fn ticked_type(&self) -> DisruptionType {
        if self.disruption_timer == 1 {
            DisruptionType::Normal
        } else {
            self.disruption_type
        }
    }

    /// The drift force once this frame's tick of the disruption timer is done.
    pub open spec fn ticked_force(&self) -> Vector {
        if self.disruption_timer == 1 {
            Vector { x: 0, y: 0 }
        } else {
            self.uncontrollable_force
        }
    }

    /// The ship after this frame's drift, if uncontrollable, and its motion.
    pub open spec fn moved_ship(&self) -> Ship {
        let s = self.ship;
        let f = self.ticked_force();
        let drifted = if self.ticked_type() == DisruptionType::Uncontrollable {
            Ship {
                velocity: Vector {
                    x: clamped(s.velocity.x + f.x) as i64,
                    y: clamped(s.velocity.y + f.y) as i64,
                },
                ..s
            }
        } else {
            s
        };
        drifted.advanced()
    }

    /// Whether an asteroid strikes the ship this frame: the ship is not invulnerable and,
    /// once moved, lies within some asteroid's reach.
    pub open spec fn ship_struck(&self) -> bool {
        after_tick(self.respawn_timer) == 0 && exists|j: int|
            0 <= j < self.asteroids@.len() && #[trigger] touches(
                self.moved_ship(),
                self.asteroids@[j],
            )
    }

    /// The sounds signalled up to the end of a frame's hits, before any `LevelComplete`.
    pub open spec fn hit_sounds(&self) -> Seq<Sound> {
        if self.asteroids@.len() == 0 {
            self.sounds@.drop_last()
        } else {
            self.sounds@
        }
    }

    /// Every field, the random state included, is as in `g`.
    pub open spec fn same_as(&self, g: Game) -> bool {
        &&& self.ship == g.ship
        &&& self.only_ship_changed(g)
        &&& self.rng == g.rng
        &&& self.sounds@ == g.sounds@
    }

    /// A frame of a level transition: the pause counts down, and the next level's asteroids
    /// come when it ends.
    #[verifier::opaque]
    pub open spec fn paused_step(&self, g: Game) -> bool {
        &&& self.level_transition_timer == g.level_transition_timer - 1
        &&& self.ship == g.ship
        &&& self.bullets@ == g.bullets@
        &&& self.shock_waves@ == g.shock_waves@
        &&& self.game_over == g.game_over
        &&& self.score == g.score
        &&& self.lives == g.lives
        &&& self.level == g.level
        &&& self.respawn_timer == g.respawn_timer
        &&& self.disruption_type == g.disruption_type
        &&& self.disruption_timer == g.disruption_timer
        &&& self.uncontrollable_force == g.uncontrollable_force
        &&& self.sounds@ == g.sounds@
        &&& self.level_transition_timer > 0 ==> self.asteroids@ == g.asteroids@
        &&& self.level_transition_timer == 0 ==> {
            &&& spawned_from(self.asteroids@, g.rng.state, g.level as int)
            &&& self.asteroids@.len() == spawn_count(g.level as int)
            &&& forall|i: int|
                0 <= i < self.asteroids@.len() ==> is_level_asteroid(#[trigger] self.asteroids@[i])
        }
    }

    /// A frame of play in which an asteroid strikes the ship: a life is lost and the frame
    /// ends there; the ship comes back at the centre, invulnerable, unless no life is left.
    #[verifier::opaque]
    pub open spec fn struck_step(&self, g: Game) -> bool {
        &&& self.lives == g.lives - 1
        &&& self.sounds@ == g.sounds@.push(Sound::Explosion)
        &&& self.asteroids@ == g.asteroids@
        &&& self.bullets@ == g.bullets@
        &&& self.shock_waves@ == g.shock_waves@
        &&& self.score == g.score
        &&& self.level == g.level
        &&& self.level_transition_timer == 0
        &&& self.disruption_timer == after_tick(g.disruption_timer)
        &&& self.disruption_type == g.ticked_type()
        &&& self.uncontrollable_force == g.ticked_force()
        &&& self.lives == 0 ==> self.game_over
        &&& self.lives > 0 ==> {
            &&& !self.game_over
            &&& self.ship == Ship { position: center(), velocity: Vector { x: 0, y: 0 }, rotation: 0 }
            &&& self.respawn_timer == RESPAWN_FRAMES
        }
    }

    /// A frame of play in which the ship is not struck: everything moves, bullet hits are
    /// settled, and clearing the last asteroid starts the transition to the next level.
    #[verifier::opaque]
    pub open spec fn flying_step(&self, g: Game) -> bool {
        let cleared = self.asteroids@.len() == 0;
        let bs = advanced_bullets(g.bullets@);
        let asts = advanced_asteroids(g.asteroids@, speed_tenths(g.level as int));
        let waves = advanced_shock_waves(g.shock_waves@);
        &&& self.lives == g.lives
        &&& !self.game_over
        &&& self.ship == g.moved_ship()
        &&& self.respawn_timer == after_tick(g.respawn_timer)
        &&& exists|m: Seq<Option<usize>>|
            is_first_hit_matching(bs, asts, m) && #[trigger] hits_resolved(
                *self,
                self.hit_sounds(),
                bs,
                asts,
                g.score,
                g.level,
                waves,
                g.sounds@,
                after_tick(g.disruption_timer),
                g.ticked_type(),
                g.ticked_force(),
                g.rng.state,
                m,
            )
        &&& cleared ==> {
            &&& self.level == next_level(g.level)
            &&& self.level_transition_timer == LEVEL_PAUSE_FRAMES
            &&& self.sounds@.len() > 0
            &&& self.sounds@.last() == Sound::LevelComplete
        }
        &&& !cleared ==> self.level == g.level && self.level_transition_timer == 0
    }

    /// What one frame does to `g`, by the phase `g` is in.
    pub open spec fn is_update_of(&self, g: Game) -> bool {
        &&& g.game_over ==> self.same_as(g)
        &&& !g.game_over && g.level_transition_timer > 0 ==> self.paused_step(g)
        &&& !g.game_over && g.level_transition_timer == 0 && g.ship_struck() ==> self.struck_step(g)
        &&& !g.game_over && g.level_transition_timer == 0 && !g.ship_struck() ==> self.flying_step(g)
    }

    /// Advances the game one frame. Nothing changes once the game is over. During a level
    /// transition only the pause counts down. Otherwise the disruption and respawn timers tick,
    /// the ship drifts and moves, and either an asteroid strikes it or bullets, asteroids and
    /// shock waves move and bullet hits are settled.
    #[verifier::rlimit(50)]
    pub fn update(&mut self)
        requires
            old(self).wf(),
        ensures
            final(self).wf(),
            final(self).is_update_of(*old(self)),
    {
        if self.game_over {
            return;
        }
        if self.level_transition_timer > 0 {
            self.level_transition_timer = self.level_transition_timer - 1;
            if self.level_transition_timer == 0 {
                self.spawn_level_asteroids();
            }
            proof {
                reveal(Game::paused_step);
            }
            return;
        }
        let ghost g = *self;
        if self.disruption_timer > 0 {
            self.disruption_timer = self.disruption_timer - 1;
            if self.disruption_timer == 0 {
                self.disruption_type = DisruptionType::Normal;
                self.uncontrollable_force = Vector { x: 0, y: 0 };
            }
        }
        if self.disruption_type == DisruptionType::Uncontrollable {
            self.ship.push(self.uncontrollable_force);
        }
        if self.respawn_timer > 0 {
            self.respawn_timer = self.respawn_timer - 1;
        }
        self.ship.advance();
        assert(self.ship == g.moved_ship());
        if self.respawn_timer == 0 && self.ship_hit() {
            self.lives = self.lives - 1;
            self.sounds.push(Sound::Explosion);
            if self.lives == 0 {
                self.game_over = true;
                proof {
                    reveal(Game::struck_step);
                }
                return;
            }
            self.ship = Ship::new(Vector { x: 400_000, y: 300_000 });
            self.respawn_timer = RESPAWN_FRAMES;
            proof {
                reveal(Game::struck_step);
            }
            return;
        }
        self.bullets = advance_bullets(&self.bullets);
        let tenths = speed_tenths_of(self.level);
        self.asteroids = advance_asteroids(&self.asteroids, tenths);
        self.shock_waves = advance_shock_waves(&self.shock_waves);
        let ghost mid = *self;
        assert(mid.bullets@ == advanced_bullets(g.bullets@));
        assert(mid.asteroids@ == advanced_asteroids(g.asteroids@, speed_tenths(g.level as int)));
        assert(mid.shock_waves@ == advanced_shock_waves(g.shock_waves@));
        assert(mid.sounds@ == g.sounds@);
        assert(mid.disruption_timer == after_tick(g.disruption_timer));
        assert(mid.disruption_type == g.ticked_type());
        assert(mid.uncontrollable_force == g.ticked_force());
        assert(!g.ship_struck());
        self.resolve_hits();
        let ghost resolved = *self;
        if self.asteroids.len() == 0 && self.level_transition_timer == 0 {
            self.level = if self.level < u32::MAX {
                self.level + 1
            } else {
                self.level
            };
            self.level_transition_timer = LEVEL_PAUSE_FRAMES;
            self.sounds.push(Sound::LevelComplete);
        }
        proof {
            let m = choose|m: Seq<Option<usize>>|
                is_first_hit_matching(mid.bullets@, mid.asteroids@, m) && #[trigger] hits_resolved(
                    resolved,
                    resolved.sounds@,
                    mid.bullets@,
                    mid.asteroids@,
                    mid.score,
                    mid.level,
                    mid.shock_waves@,
                    mid.sounds@,
                    mid.disruption_timer,
                    mid.disruption_type,
                    mid.uncontrollable_force,
                    mid.rng.state,
                    m,
                );
            if self.asteroids@.len() == 0 {
                assert(self.sounds@.drop_last() =~= resolved.sounds@);
            }
            assert(hits_resolved(
                *self,
                self.hit_sounds(),
                mid.bullets@,
                mid.asteroids@,
                mid.score,
                mid.level,
                mid.shock_waves@,
                mid.sounds@,
                mid.disruption_timer,
                mid.disruption_type,
                mid.uncontrollable_force,
                mid.rng.state,
                m,
            ));
            reveal(Game::flying_step);
            assert(self.flying_step(g));
        }
    }

    /// Whether the ship lies within reach of some asteroid.
    fn ship_hit(&self) -> (r: bool)
        requires
            self.wf(),
        ensures
            r == exists|j: int|
                0 <= j < self.asteroids@.len() && #[trigger] touches(self.ship, self.asteroids@[j]),
    {
        let mut j: usize = 0;
        while j < self.asteroids.len()
            invariant
                self.wf(),
                j <= self.asteroids@.len(),
                forall|k: int| 0 <= k < j ==> !#[trigger] touches(self.ship, self.asteroids@[k]),
            decreases self.asteroids@.len() - j,
        {
            let a = &self.asteroids[j];
            if is_within(self.ship.position, a.position, a.size + SHIP_HIT_PADDING) {
                assert(touches(self.ship, self.asteroids@[j as int]));
                return true;
            }
            j = j + 1;
        }
        false
    }

    pub fn is_game_over(&self) -> (r: bool)
        ensures
            r == self.game_over,
    {
        self.game_over
    }

    pub fn get_score(&self) -> (r: u64)
        ensures
            r == self.score,
    {
        self.score
    }

    pub fn get_level(&self) -> (r: u32)
        ensures
            r == self.level,
    {
        self.level
    }

    /// Hands over the sound events signalled since the last call.
    pub fn take_sounds(&mut self) -> (r: Vec<Sound>)
        ensures
            r@ == old(self).sounds@,
            final(self).sounds@.len() == 0,
            final(self).ship == old(self).ship,
            final(self).only_ship_changed(*old(self)),
    {
        let mut r: Vec<Sound> = Vec::new();
        std::mem::swap(&mut r, &mut self.sounds);
        r
    }

    /// What the screen shows beside the entities.
    pub fn render(&self) -> (r: Overlay)
        ensures
            r.score == self.score,
            r.level == self.level,
            r.lives == self.lives,
            r.banner == if self.disruption_timer > 0 {
                self.disruption_type
            } else {
                DisruptionType::Normal
            },
            r.countdown == if self.level_transition_timer > 0 {
                self.level_transition_timer / FRAMES_PER_SECOND + 1
            } else {
                0
            },
            r.show_entities == (self.level_transition_timer == 0),
            r.show_ship == (self.level_transition_timer == 0 && !self.game_over && (
            self.respawn_timer == 0 || self.respawn_timer % 20 > 10)),
            r.game_over == self.game_over,
    {
        let paused = self.level_transition_timer > 0;
        Overlay {
            score: self.score,
            level: self.level,
            lives: self.lives,
            banner: if self.disruption_timer > 0 {
                self.disruption_type
            } else {
                DisruptionType::Normal
            },
            countdown: if paused {
                self.level_transition_timer / FRAMES_PER_SECOND + 1
            } else {
                0
            },
            show_entities: !paused,
            show_ship: !paused && !self.game_over && (self.respawn_timer == 0
                || self.respawn_timer % 20 > 10),
            game_over: self.game_over,
        }
    }
}

proof fn lemma_survivors_wf_bullets(s: Seq<Bullet>, gone: Seq<bool>)
    requires
        forall|q: int| 0 <= q < s.len() ==> (#[trigger] s[q]).wf(),
    ensures
        forall|q: int| 0 <= q < survivors(s, gone).len() ==> (#[trigger] survivors(s, gone)[q]).wf(),
    decreases s.len(),
{
    if s.len() > 0 {
        lemma_survivors_wf_bullets(s.drop_last(), gone);
        let rest = survivors(s.drop_last(), gone);
        assert(s.last().wf());
        if !gone[s.len() - 1] {
            assert forall|q: int| 0 <= q < rest.push(s.last()).len() implies (#[trigger] rest.push(
                s.last(),
            )[q]).wf() by {
                if q < rest.len() {
                    assert(rest.push(s.last())[q] == rest[q]);
                }
            }
        }
    }
}

proof fn lemma_survivors_wf_asteroids(s: Seq<Asteroid>, gone: Seq<bool>)
    requires
        forall|q: int| 0 <= q < s.len() ==> (#[trigger] s[q]).wf(),
    ensures
        forall|q: int| 0 <= q < survivors(s, gone).len() ==> (#[trigger] survivors(s, gone)[q]).wf(),
    decreases s.len(),
{
    if s.len() > 0 {
        lemma_survivors_wf_asteroids(s.drop_last(), gone);
        let rest = survivors(s.drop_last(), gone);
        assert(s.last().wf());
        if !gone[s.len() - 1] {
            assert forall|q: int| 0 <= q < rest.push(s.last()).len() implies (#[trigger] rest.push(
                s.last(),
            )[q]).wf() by {
                if q < rest.len() {
                    assert(rest.push(s.last())[q] == rest[q]);
                }
            }
        }
    }
}

} // verus!
