use vstd::prelude::*;

use crate::geometry::{
    add_clamped, along_heading, bounded_velocity, heading_vector, in_field, near_field, scale, scale_up,
    scaled, wrap_move, wrapped, Vector, FIELD_HEIGHT, FIELD_WIDTH, FULL_TURN,
};

verus! {

/// Velocity kept by the ship from one frame to the next, in percent.
pub const SHIP_DAMPING_PERCENT: i64 = 99;

/// Distance ahead of the ship's centre at which a bullet appears.
pub const BULLET_SPAWN_OFFSET: i64 = 20_000;

pub const BULLET_SPEED: i64 = 10_000;

pub const BULLET_LIFETIME: u32 = 60;

pub const ASTEROID_SPEED: i64 = 2000;

/// Largest collision radius an asteroid may have.
pub const MAX_ASTEROID_SIZE: i64 = 1_000_000;

pub const SHOCKWAVE_GROWTH: i64 = 3000;

pub const SHOCKWAVE_MAX_RADIUS: i64 = 150_000;

pub const SHOCKWAVE_LIFETIME: u32 = 60;

/// Opacity of a fully visible shock wave.
pub const OPAQUE: i64 = 1000;

/// A point moved by a displacement and wrapped onto the field.
pub open spec fn moved(p: Vector, d: Vector) -> Vector {
    Vector {
        x: wrapped(p.x + d.x, FIELD_WIDTH as int) as i64,
        y: wrapped(p.y + d.y, FIELD_HEIGHT as int) as i64,
    }
}

/// The player's ship; `rotation` is its heading in tenths of a degree, 0 pointing up.
#[derive(Clone, Copy, Debug, PartialEq, Eq, Structural)]
pub struct Ship {
    pub position: Vector,
    pub velocity: Vector,
    pub rotation: i64,
}

impl Ship {
    pub open spec fn wf(&self) -> bool {
        in_field(self.position) && bounded_velocity(self.velocity) && 0 <= self.rotation
            < FULL_TURN
    }

    /// The ship one frame later: moved by its velocity, then slowed by damping.
    pub open spec fn advanced(&self) -> Ship {
        Ship {
            position: moved(self.position, self.velocity),
            velocity: Vector {
                x: scaled(self.velocity.x as int, SHIP_DAMPING_PERCENT as int, 100) as i64,
                y: scaled(self.velocity.y as int, SHIP_DAMPING_PERCENT as int, 100) as i64,
            },
            rotation: self.rotation,
        }
    }

    /// A ship at rest at `position`, heading up.
    pub fn new(position: Vector) -> (r: Ship)
        requires
            in_field(position),
        ensures
            r.position == position,
            r.velocity == (Vector { x: 0, y: 0 }),
            r.rotation == 0,
            r.wf(),
    {
        Ship { position, velocity: Vector { x: 0, y: 0 }, rotation: 0 }
    }

    pub fn advance(&mut self)
        requires
            old(self).wf(),
        ensures
            *final(self) == old(self).advanced(),
            final(self).wf(),
    {
        self.position = wrap_move(self.position, self.velocity);
        self.velocity = Vector {
            x: scale(self.velocity.x, SHIP_DAMPING_PERCENT, 100),
            y: scale(self.velocity.y, SHIP_DAMPING_PERCENT, 100),
        };
    }

    /// Adds an impulse to the velocity; each component stays within the limit.
    pub fn push(&mut self, d: Vector)
        requires
            old(self).wf(),
            bounded_velocity(d),
        ensures
            final(self).velocity.x == crate::geometry::clamped(old(self).velocity.x + d.x),
            final(self).velocity.y == crate::geometry::clamped(old(self).velocity.y + d.y),
            final(self).position == old(self).position,
            final(self).rotation == old(self).rotation,
            final(self).wf(),
    {
        self.velocity = add_clamped(self.velocity, d);
    }
}

/// A projectile; `lifetime` counts the frames it has left.
#[derive(Clone, Copy, Debug, PartialEq, Eq, Structural)]
pub struct Bullet {
    pub position: Vector,
    pub velocity: Vector,
    pub lifetime: u32,
}

impl Bullet {
    pub open spec fn wf(&self) -> bool {
        near_field(self.position) && bounded_velocity(self.velocity) && self.lifetime > 0
    }

    pub open spec fn advanced(&self) -> Bullet {
        Bullet {
            position: moved(self.position, self.velocity),
            velocity: self.velocity,
            lifetime: (self.lifetime - 1) as u32,
        }
    }

    /// The bullet a ship fires: `BULLET_SPAWN_OFFSET` ahead of its centre, moving along its
    /// heading. The point is not wrapped; the bullet's first move brings it onto the field.
    pub open spec fn spec_fired_from(ship: Ship) -> Bullet {
        let offset = heading_vector(ship.rotation as int, BULLET_SPAWN_OFFSET as int);
        Bullet {
            position: Vector {
                x: (ship.position.x + offset.x) as i64,
                y: (ship.position.y + offset.y) as i64,
            },
            velocity: heading_vector(ship.rotation as int, BULLET_SPEED as int),
            lifetime: BULLET_LIFETIME,
        }
    }

    pub fn fired_from(ship: &Ship) -> (r: Bullet)
        requires
            ship.wf(),
        ensures
            r == Bullet::spec_fired_from(*ship),
            r.wf(),
    {
        let offset = along_heading(ship.rotation, BULLET_SPAWN_OFFSET);
        Bullet {
            position: Vector { x: ship.position.x + offset.x, y: ship.position.y + offset.y },
            velocity: along_heading(ship.rotation, BULLET_SPEED),
            lifetime: BULLET_LIFETIME,
        }
    }

    /// Moves the bullet one frame and spends one frame of its lifetime; returns whether any is left.
    pub fn advance(&mut self) -> (alive: bool)
        requires
            old(self).wf(),
        ensures
            *final(self) == old(self).advanced(),
            alive == (final(self).lifetime > 0),
            alive ==> final(self).wf(),
            in_field(final(self).position),
    {
        self.position = wrap_move(self.position, self.velocity);
        self.lifetime = self.lifetime - 1;
        self.lifetime > 0
    }
}

/// A drifting rock; `size` is its collision radius and `pulse` a frame count for its glow.
#[derive(Clone, Copy, Debug, PartialEq, Eq, Structural)]
pub struct Asteroid {
    pub position: Vector,
    pub velocity: Vector,
    pub size: i64,
    pub is_special: bool,
    pub pulse: u32,
}

impl Asteroid {
    pub open spec fn wf(&self) -> bool {
        in_field(self.position) && bounded_velocity(self.velocity) && 0 < self.size
            <= MAX_ASTEROID_SIZE
    }

    /// The asteroid one frame later, its velocity scaled by `tenths / 10`.
    pub open spec fn advanced(&self, tenths: int) -> Asteroid {
        Asteroid {
            position: moved(
                self.position,
                Vector {
                    x: scaled(self.velocity.x as int, tenths, 10) as i64,
                    y: scaled(self.velocity.y as int, tenths, 10) as i64,
                },
            ),
            pulse: if self.is_special {
                if self.pulse == u32::MAX {
                    0
                } else {
                    (self.pulse + 1) as u32
                }
            } else {
                self.pulse
            },
            ..*self
        }
    }

    /// An ordinary asteroid at `position` moving at the base speed along `heading`.
    pub fn new(position: Vector, heading: i64, size: i64) -> (r: Asteroid)
        requires
            in_field(position),
            0 <= heading < FULL_TURN,
            0 < size <= MAX_ASTEROID_SIZE,
        ensures
            r == (Asteroid {
                position,
                velocity: heading_vector(heading as int, ASTEROID_SPEED as int),
                size,
                is_special: false,
                pulse: 0,
            }),
            r.wf(),
    {
        Asteroid {
            position,
            velocity: along_heading(heading, ASTEROID_SPEED),
            size,
            is_special: false,
            pulse: 0,
        }
    }

    /// A special asteroid: as `new`, but marked special.
    pub fn new_special(position: Vector, heading: i64, size: i64) -> (r: Asteroid)
        requires
            in_field(position),
            0 <= heading < FULL_TURN,
            0 < size <= MAX_ASTEROID_SIZE,
        ensures
            r == (Asteroid {
                position,
                velocity: heading_vector(heading as int, ASTEROID_SPEED as int),
                size,
                is_special: true,
                pulse: 0,
            }),
            r.wf(),
    {
        let mut a = Asteroid::new(position, heading, size);
        a.is_special = true;
        a
    }

    pub fn advance(&mut self, tenths: i64)
        requires
            old(self).wf(),
            0 <= tenths <= 20,
        ensures
            *final(self) == old(self).advanced(tenths as int),
            final(self).wf(),
    {
        let d = Vector { x: scale_up(self.velocity.x, tenths), y: scale_up(self.velocity.y, tenths) };
        self.position = wrap_move(self.position, d);
        if self.is_special {
            self.pulse = if self.pulse == u32::MAX { 0 } else { self.pulse + 1 };
        }
    }
}

/// The expanding ring left by a special asteroid; `alpha` is its opacity out of `OPAQUE`.
#[derive(Clone, Copy, Debug, PartialEq, Eq, Structural)]
pub struct ShockWave {
    pub position: Vector,
    pub radius: i64,
    pub max_radius: i64,
    pub alpha: i64,
    pub lifetime: u32,
}

impl ShockWave {
    pub open spec fn wf(&self) -> bool {
        in_field(self.position) && 0 <= self.radius < self.max_radius <= SHOCKWAVE_MAX_RADIUS
            && 0 < self.lifetime <= SHOCKWAVE_LIFETIME
    }

    pub open spec fn advanced(&self) -> ShockWave {
        ShockWave {
            radius: (self.radius + SHOCKWAVE_GROWTH) as i64,
            alpha: (self.lifetime * OPAQUE / (SHOCKWAVE_LIFETIME as int)) as i64,
            lifetime: (self.lifetime - 1) as u32,
            ..*self
        }
    }

    pub fn new(position: Vector) -> (r: ShockWave)
        requires
            in_field(position),
        ensures
            r == (ShockWave {
                position,
                radius: 0,
                max_radius: SHOCKWAVE_MAX_RADIUS,
                alpha: OPAQUE,
                lifetime: SHOCKWAVE_LIFETIME,
            }),
            r.wf(),
    {
        ShockWave {
            position,
            radius: 0,
            max_radius: SHOCKWAVE_MAX_RADIUS,
            alpha: OPAQUE,
            lifetime: SHOCKWAVE_LIFETIME,
        }
    }

    /// Grows the ring one frame; returns whether it is still alive.
    pub fn advance(&mut self) -> (alive: bool)
        requires
            old(self).wf(),
        ensures
            *final(self) == old(self).advanced(),
            alive == (final(self).lifetime > 0 && final(self).radius < final(self).max_radius),
            alive ==> final(self).wf(),
    {
        self.radius = self.radius + SHOCKWAVE_GROWTH;
        self.alpha = (self.lifetime as i64) * OPAQUE / (SHOCKWAVE_LIFETIME as i64);
        self.lifetime = self.lifetime - 1;
        self.lifetime > 0 && self.radius < self.max_radius
    }
}


/// Bullets one frame later, those whose lifetime ran out left behind.
pub open spec fn advanced_bullets(s: Seq<Bullet>) -> Seq<Bullet> {
    s.map_values(|b: Bullet| b.advanced()).filter(|b: Bullet| b.lifetime > 0)
}

/// Shock waves one frame later, those that faded or reached their full radius left behind.
pub open spec fn advanced_shock_waves(s: Seq<ShockWave>) -> Seq<ShockWave> {
    s.map_values(|w: ShockWave| w.advanced()).filter(
        |w: ShockWave| w.lifetime > 0 && w.radius < w.max_radius,
    )
}

/// Asteroids one frame later at `tenths / 10` of their speed.
pub open spec fn advanced_asteroids(s: Seq<Asteroid>, tenths: int) -> Seq<Asteroid> {
    s.map_values(|a: Asteroid| a.advanced(tenths))
}

pub fn advance_bullets(bs: &Vec<Bullet>) -> (r: Vec<Bullet>)
    requires
        forall|i: int| 0 <= i < bs@.len() ==> (#[trigger] bs@[i]).wf(),
    ensures
        r@ == advanced_bullets(bs@),
        forall|i: int| 0 <= i < r@.len() ==> (#[trigger] r@[i]).wf(),
{
    let mut r: Vec<Bullet> = Vec::new();
    let mut i: usize = 0;
    while i < bs.len()
        invariant
            forall|q: int| 0 <= q < bs@.len() ==> (#[trigger] bs@[q]).wf(),
            i <= bs@.len(),
            r@ == advanced_bullets(bs@.take(i as int)),
            forall|q: int| 0 <= q < r@.len() ==> (#[trigger] r@[q]).wf(),
        decreases bs@.len() - i,
    {
        let mut b = bs[i];
        let alive = b.advance();
        proof {
            let adv = |b: Bullet| b.advanced();
            let live = |b: Bullet| b.lifetime > 0;
            assert(bs@.take(i + 1).map_values(adv) =~= bs@.take(i as int).map_values(adv).push(b));
            bs@.take(i as int).map_values(adv).lemma_filter_push(b, live);
        }
        if alive {
            r.push(b);
        }
        i = i + 1;
    }
    proof {
        assert(bs@.take(bs@.len() as int) =~= bs@);
    }
    r
}

pub fn advance_shock_waves(ws: &Vec<ShockWave>) -> (r: Vec<ShockWave>)
    requires
        forall|i: int| 0 <= i < ws@.len() ==> (#[trigger] ws@[i]).wf(),
    ensures
        r@ == advanced_shock_waves(ws@),
        forall|i: int| 0 <= i < r@.len() ==> (#[trigger] r@[i]).wf(),
{
    let mut r: Vec<ShockWave> = Vec::new();
    let mut i: usize = 0;
    while i < ws.len()
        invariant
            forall|q: int| 0 <= q < ws@.len() ==> (#[trigger] ws@[q]).wf(),
            i <= ws@.len(),
            r@ == advanced_shock_waves(ws@.take(i as int)),
            forall|q: int| 0 <= q < r@.len() ==> (#[trigger] r@[q]).wf(),
        decreases ws@.len() - i,
    {
        let mut w = ws[i];
        let alive = w.advance();
        proof {
            let adv = |w: ShockWave| w.advanced();
            let live = |w: ShockWave| w.lifetime > 0 && w.radius < w.max_radius;
            assert(ws@.take(i + 1).map_values(adv) =~= ws@.take(i as int).map_values(adv).push(w));
            ws@.take(i as int).map_values(adv).lemma_filter_push(w, live);
        }
        if alive {
            r.push(w);
        }
        i = i + 1;
    }
    proof {
        assert(ws@.take(ws@.len() as int) =~= ws@);
    }
    r
}

pub fn advance_asteroids(asts: &Vec<Asteroid>, tenths: i64) -> (r: Vec<Asteroid>)
    requires
        forall|i: int| 0 <= i < asts@.len() ==> (#[trigger] asts@[i]).wf(),
        0 <= tenths <= 20,
    ensures
        r@ == advanced_asteroids(asts@, tenths as int),
        forall|i: int| 0 <= i < r@.len() ==> (#[trigger] r@[i]).wf(),
{
    let mut r: Vec<Asteroid> = Vec::new();
    let mut i: usize = 0;
    while i < asts.len()
        invariant
            forall|q: int| 0 <= q < asts@.len() ==> (#[trigger] asts@[q]).wf(),
            0 <= tenths <= 20,
            i <= asts@.len(),
            r@ =~= advanced_asteroids(asts@.take(i as int), tenths as int),
            forall|q: int| 0 <= q < r@.len() ==> (#[trigger] r@[q]).wf(),
        decreases asts@.len() - i,
    {
        let mut a = asts[i];
        a.advance(tenths);
        r.push(a);
        i = i + 1;
    }
    proof {
        assert(asts@.take(asts@.len() as int) =~= asts@);
    }
    r
}

} // verus!
