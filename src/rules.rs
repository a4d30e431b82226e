use vstd::prelude::*;

use crate::entities::{Asteroid, Bullet, ASTEROID_SPEED};
use crate::geometry::{heading_vector, is_within, within, FULL_TURN};
use crate::rng::{drawn, next_state, Rng};

verus! {

/// Size of an asteroid when its level spawns.
pub const BASE_ASTEROID_SIZE: i64 = 40_000;

/// Asteroids smaller than this do not split.
pub const MIN_SPLIT_SIZE: i64 = 15_000;

/// Score multiplier of a level: one more every three levels.
pub open spec fn score_multiplier(level: int) -> int {
    1 + (level - 1) / 3
}

/// Asteroid speed of a level, in tenths: faster within each cycle of three levels.
pub open spec fn speed_tenths(level: int) -> int {
    10 + ((level - 1) % 3) * 3
}

/// Number of asteroids a level starts with: one more every four levels.
pub open spec fn spawn_count(level: int) -> int {
    4 + (level - 1) / 4
}

/// Points for destroying an asteroid of the given size and kind at the given level.
pub open spec fn points(size: int, is_special: bool, level: int) -> int {
    let base: int = if is_special {
        100
    } else if size >= BASE_ASTEROID_SIZE {
        20
    } else if size >= 20_000 {
        50
    } else {
        100
    };
    score_multiplier(level) * base
}

/// Whether an asteroid of this kind breaks into two when destroyed.
pub open spec fn splits(a: Asteroid) -> bool {
    !a.is_special && a.size >= MIN_SPLIT_SIZE
}

/// Whether a bullet lies inside an asteroid.
pub open spec fn hits(b: Bullet, a: Asteroid) -> bool {
    within(b.position, a.position, a.size as int)
}

/// Whether one of the first `i` bullets was matched with asteroid `j`.
pub open spec fn claimed_before(m: Seq<Option<usize>>, i: int, j: int) -> bool {
    exists|k: int| 0 <= k < i && #[trigger] m[k] == Some(j as usize)
}

/// `m` gives each bullet, in order, the first asteroid in list order that it hits and that no
/// earlier bullet took, or `None` where there is none.
pub open spec fn is_first_hit_matching(
    bs: Seq<Bullet>,
    asts: Seq<Asteroid>,
    m: Seq<Option<usize>>,
) -> bool {
    &&& m.len() == bs.len()
    &&& forall|i: int|
        0 <= i < m.len() ==> match #[trigger] m[i] {
            Some(j) => {
                &&& j < asts.len()
                &&& hits(bs[i], asts[j as int])
                &&& !claimed_before(m, i, j as int)
                &&& forall|k: int|
                    0 <= k < j && hits(bs[i], #[trigger] asts[k]) ==> claimed_before(m, i, k)
            },
            None => forall|k: int|
                0 <= k < asts.len() && hits(bs[i], #[trigger] asts[k]) ==> claimed_before(m, i, k),
        }
}

/// The elements of `s` whose flag in `gone` is false, in order.
pub open spec fn survivors<T>(s: Seq<T>, gone: Seq<bool>) -> Seq<T>
    decreases s.len(),
{
    if s.len() == 0 {
        Seq::empty()
    } else {
        let rest = survivors(s.drop_last(), gone);
        if gone[s.len() - 1] {
            rest
        } else {
            rest.push(s.last())
        }
    }
}

/// Points scored for the asteroids of `s` flagged in `gone`.
pub open spec fn hit_points(s: Seq<Asteroid>, gone: Seq<bool>, level: int) -> int
    decreases s.len(),
{
    if s.len() == 0 {
        0
    } else {
        hit_points(s.drop_last(), gone, level) + if gone[s.len() - 1] {
            points(s.last().size as int, s.last().is_special, level)
        } else {
            0
        }
    }
}

/// Number of children born of the asteroids of `s` flagged in `gone`.
pub open spec fn child_count(s: Seq<Asteroid>, gone: Seq<bool>) -> int
    decreases s.len(),
{
    if s.len() == 0 {
        0
    } else {
        child_count(s.drop_last(), gone) + if gone[s.len() - 1] && splits(s.last()) {
            2int
        } else {
            0int
        }
    }
}

/// Number of special asteroids of `s` flagged in `gone`.
pub open spec fn special_count(s: Seq<Asteroid>, gone: Seq<bool>) -> int
    decreases s.len(),
{
    if s.len() == 0 {
        0
    } else {
        special_count(s.drop_last(), gone) + if gone[s.len() - 1] && s.last().is_special {
            1int
        } else {
            0int
        }
    }
}

/// Which bullets a matching pairs with an asteroid.
pub open spec fn matched(m: Seq<Option<usize>>) -> Seq<bool> {
    m.map_values(|o: Option<usize>| o.is_some())
}

/// Which of `n` asteroids a matching pairs with a bullet.
pub open spec fn taken_by(m: Seq<Option<usize>>, n: int) -> Seq<bool> {
    Seq::new(n as nat, |j: int| claimed_before(m, m.len() as int, j))
}

/// `a + b`, held at the largest `u64`.
pub open spec fn saturating_sum(a: int, b: int) -> int {
    if a + b > u64::MAX {
        u64::MAX as int
    } else {
        a + b
    }
}

pub fn score_multiplier_of(level: u32) -> (r: u64)
    requires
        level >= 1,
    ensures
        r == score_multiplier(level as int),
        1 <= r <= 0x1_0000_0000,
{
    1 + ((level - 1) / 3) as u64
}

pub fn speed_tenths_of(level: u32) -> (r: i64)
    requires
        level >= 1,
    ensures
        r == speed_tenths(level as int),
        10 <= r <= 16,
{
    10 + (((level - 1) % 3) as i64) * 3
}

pub fn spawn_count_of(level: u32) -> (r: u64)
    requires
        level >= 1,
    ensures
        r == spawn_count(level as int),
        4 <= r,
{
    4 + ((level - 1) / 4) as u64
}

pub fn points_for(size: i64, is_special: bool, level: u32) -> (r: u64)
    requires
        level >= 1,
    ensures
        r == points(size as int, is_special, level as int),
        r <= 100 * 0x1_0000_0000,
{
    let mult = score_multiplier_of(level);
    let base: u64 = if is_special {
        100
    } else if size >= BASE_ASTEROID_SIZE {
        20
    } else if size >= 20_000 {
        50
    } else {
        100
    };
    base * mult
}

/// Breaks a destroyed asteroid: two half-size ordinary children at its position, each along a
/// random heading, where it `splits`; none otherwise.
pub fn split(a: &Asteroid, rng: &mut Rng) -> (children: Vec<Asteroid>)
    requires
        a.wf(),
    ensures
        splits(*a) ==> {
            &&& children@.len() == 2
            &&& children@[0].velocity == heading_vector(
                drawn(next_state(old(rng).state), FULL_TURN as int),
                ASTEROID_SPEED as int,
            )
            &&& children@[1].velocity == heading_vector(
                drawn(next_state(next_state(old(rng).state)), FULL_TURN as int),
                ASTEROID_SPEED as int,
            )
            &&& final(rng).state == next_state(next_state(old(rng).state))
        },
        !splits(*a) ==> children@.len() == 0 && final(rng).state == old(rng).state,
        forall|i: int|
            0 <= i < children@.len() ==> {
                &&& (#[trigger] children@[i]).position == a.position
                &&& children@[i].size == a.size / 2
                &&& !children@[i].is_special
                &&& children@[i].pulse == 0
                &&& children@[i].wf()
                &&& exists|h: int|
                    0 <= h < FULL_TURN && children@[i].velocity == heading_vector(
                        h,
                        ASTEROID_SPEED as int,
                    )
            },
{
    let mut children: Vec<Asteroid> = Vec::new();
    if a.size < MIN_SPLIT_SIZE || a.is_special {
        return children;
    }
    let h1 = rng.below(FULL_TURN as u64) as i64;
    let c1 = Asteroid::new(a.position, h1, a.size / 2);
    let h2 = rng.below(FULL_TURN as u64) as i64;
    let c2 = Asteroid::new(a.position, h2, a.size / 2);
    children.push(c1);
    children.push(c2);
    proof {
        assert(children@[0] == c1);
        assert(children@[1] == c2);
    }
    children
}

proof fn lemma_claimed_push(m: Seq<Option<usize>>, x: Option<usize>, i: int, j: int)
    requires
        0 <= i <= m.len(),
    ensures
        claimed_before(m.push(x), i, j) == claimed_before(m, i, j),
        claimed_before(m.push(x), m.len() + 1 as int, j) == (claimed_before(m, m.len() as int, j)
            || x == Some(j as usize)),
{
    let n = m.push(x);
    if claimed_before(n, i, j) {
        let k = choose|k: int| 0 <= k < i && #[trigger] n[k] == Some(j as usize);
        assert(m[k] == Some(j as usize));
    }
    if claimed_before(m, i, j) {
        let k = choose|k: int| 0 <= k < i && #[trigger] m[k] == Some(j as usize);
        assert(n[k] == Some(j as usize));
    }
    if claimed_before(n, m.len() + 1 as int, j) {
        let k = choose|k: int| 0 <= k < m.len() + 1 && #[trigger] n[k] == Some(j as usize);
        if k < m.len() {
            assert(m[k] == Some(j as usize));
        }
    }
    if claimed_before(m, m.len() as int, j) {
        let k = choose|k: int| 0 <= k < m.len() && #[trigger] m[k] == Some(j as usize);
        assert(n[k] == Some(j as usize));
    }
    if x == Some(j as usize) {
        assert(n[m.len() as int] == Some(j as usize));
    }
}

/// Pairs bullets with the asteroids they destroy this frame. Each bullet takes the first
/// asteroid, in list order, that it hits and that no earlier bullet took. Also returns, for
/// each asteroid, whether a bullet took it.
pub fn match_hits(bs: &Vec<Bullet>, asts: &Vec<Asteroid>) -> (r: (Vec<Option<usize>>, Vec<bool>))
    requires
        forall|i: int| 0 <= i < bs@.len() ==> (#[trigger] bs@[i]).wf(),
        forall|j: int| 0 <= j < asts@.len() ==> (#[trigger] asts@[j]).wf(),
    ensures
        is_first_hit_matching(bs@, asts@, r.0@),
        r.1@.len() == asts@.len(),
        forall|j: int|
            0 <= j < asts@.len() ==> (#[trigger] r.1@[j] == claimed_before(
                r.0@,
                bs@.len() as int,
                j,
            )),
{
    let mut taken: Vec<bool> = Vec::new();
    let mut t: usize = 0;
    while t < asts.len()
        invariant
            t <= asts@.len(),
            taken@.len() == t,
            forall|j: int| 0 <= j < t ==> !(#[trigger] taken@[j]),
        decreases asts@.len() - t,
    {
        taken.push(false);
        t = t + 1;
    }
    let mut m: Vec<Option<usize>> = Vec::new();
    let mut i: usize = 0;
    while i < bs.len()
        invariant
            forall|q: int| 0 <= q < bs@.len() ==> (#[trigger] bs@[q]).wf(),
            forall|q: int| 0 <= q < asts@.len() ==> (#[trigger] asts@[q]).wf(),
            i <= bs@.len(),
            m@.len() == i,
            taken@.len() == asts@.len(),
            forall|j: int|
                0 <= j < asts@.len() ==> (#[trigger] taken@[j] == claimed_before(m@, i as int, j)),
            is_first_hit_matching(bs@.take(i as int), asts@, m@),
        decreases bs@.len() - i,
    {
        let b = &bs[i];
        let mut found: Option<usize> = None;
        let mut j: usize = 0;
        while j < asts.len() && found.is_none()
            invariant
                forall|q: int| 0 <= q < asts@.len() ==> (#[trigger] asts@[q]).wf(),
                b.wf(),
                j <= asts@.len(),
                taken@.len() == asts@.len(),
                forall|k: int| 0 <= k < j && hits(*b, #[trigger] asts@[k]) ==> taken@[k],
                found.is_some() ==> found == Some(j) && j < asts@.len() && !taken@[j as int]
                    && hits(*b, asts@[j as int]),
            decreases asts@.len() - j + if found.is_none() { 1int } else { 0int },
        {
            if !taken[j] && is_within(b.position, asts[j].position, asts[j].size) {
                found = Some(j);
            } else {
                j = j + 1;
            }
        }
        proof {
            let m0 = m@;
            let m1 = m0.push(found);
            assert forall|q: int, k: int| 0 <= q <= i implies claimed_before(m1, q, k)
                == claimed_before(m0, q, k) by {
                lemma_claimed_push(m0, found, q, k);
            }
            assert forall|k: int| 0 <= k < asts@.len() implies claimed_before(m1, i + 1, k) == (
            claimed_before(m0, i as int, k) || found == Some(k as usize)) by {
                lemma_claimed_push(m0, found, i as int, k);
            }
            let bt = bs@.take(i + 1);
            assert(bt[i as int] == *b);
            assert forall|q: int| 0 <= q < m1.len() implies match #[trigger] m1[q] {
                Some(jj) => {
                    &&& jj < asts@.len()
                    &&& hits(bt[q], asts@[jj as int])
                    &&& !claimed_before(m1, q, jj as int)
                    &&& forall|k: int|
                        0 <= k < jj && hits(bt[q], #[trigger] asts@[k]) ==> claimed_before(m1, q, k)
                },
                None => forall|k: int|
                    0 <= k < asts@.len() && hits(bt[q], #[trigger] asts@[k]) ==> claimed_before(
                        m1,
                        q,
                        k,
                    ),
            } by {
                if q < i {
                    assert(m1[q] == m0[q]);
                    assert(bt[q] == bs@.take(i as int)[q]);
                } else {
                    assert(q == i);
                }
            }
        }
        if let Some(jf) = found {
            taken.set(jf, true);
        }
        m.push(found);
        i = i + 1;
    }
    proof {
        assert(bs@.take(bs@.len() as int) =~= bs@);
    }
    (m, taken)
}

} // verus!
