use asteroids::entities::{Asteroid, Bullet, Ship, ShockWave};
use asteroids::geometry::{along_heading, cos_of, sin_of, wrap_coord, Vector};
use asteroids::rng::Rng;
use asteroids::rules::{
    match_hits, points_for, score_multiplier_of, spawn_count_of, speed_tenths_of, split,
};
use asteroids::{DisruptionType, Game, Sound};

fn still_asteroid(x: i64, y: i64, size: i64, is_special: bool) -> Asteroid {
    Asteroid {
        position: Vector { x, y },
        velocity: Vector { x: 0, y: 0 },
        size,
        is_special,
        pulse: 0,
    }
}

fn still_bullet(x: i64, y: i64) -> Bullet {
    Bullet { position: Vector { x, y }, velocity: Vector { x: 0, y: 0 }, lifetime: 60 }
}

fn quiet_game(asteroids: Vec<Asteroid>) -> Game {
    let mut g = Game::new(7);
    g.asteroids = asteroids;
    g
}

#[test]
fn new_game_starts_at_level_one() {
    let g = Game::new(42);
    assert_eq!(g.get_level(), 1);
    assert_eq!(g.get_score(), 0);
    assert_eq!(g.lives, 3);
    assert!(!g.is_game_over());
    assert_eq!(g.asteroids.len(), 4);
    assert_eq!(g.ship.position, Vector { x: 400_000, y: 300_000 });
    for a in &g.asteroids {
        assert_eq!(a.size, 40_000);
        assert!(a.position.x >= 0 && a.position.x <= 800_000);
        assert!(a.position.y >= 0 && a.position.y <= 600_000);
    }
}

#[test]
fn same_seed_same_game() {
    let a = Game::new(99);
    let b = Game::new(99);
    assert_eq!(a.asteroids, b.asteroids);
}

#[test]
fn wrap_rule_on_each_edge() {
    assert_eq!(wrap_coord(800_001, 800_000), 0);
    assert_eq!(wrap_coord(-1, 800_000), 800_000);
    assert_eq!(wrap_coord(800_000, 800_000), 800_000);
    assert_eq!(wrap_coord(123, 800_000), 123);
}

#[test]
fn entities_stay_in_field_after_advance() {
    let mut s = Ship { position: Vector { x: 799_000, y: 1_000 }, velocity: Vector { x: 5_000, y: -5_000 }, rotation: 0 };
    s.advance();
    assert_eq!(s.position, Vector { x: 0, y: 600_000 });
    assert_eq!(s.velocity, Vector { x: 4_950, y: -4_950 });
    let mut b = Bullet { position: Vector { x: 10, y: 10 }, velocity: Vector { x: -100, y: 100 }, lifetime: 2 };
    assert!(b.advance());
    assert_eq!(b.position, Vector { x: 800_000, y: 110 });
    assert!(!b.advance());
    let mut a = Asteroid { position: Vector { x: 100, y: 100 }, velocity: Vector { x: 1000, y: 0 }, size: 40_000, is_special: true, pulse: 0 };
    a.advance(16);
    assert_eq!(a.position, Vector { x: 1_700, y: 100 });
    assert_eq!(a.pulse, 1);
}

#[test]
fn shock_wave_grows_and_fades() {
    let mut w = ShockWave::new(Vector { x: 5, y: 5 });
    assert!(w.advance());
    assert_eq!(w.radius, 3_000);
    assert_eq!(w.alpha, 1000);
    assert_eq!(w.lifetime, 59);
    let mut alive = true;
    let mut frames = 1;
    while alive {
        alive = w.advance();
        frames += 1;
    }
    assert_eq!(frames, 50);
}

#[test]
fn trig_on_quarter_turns() {
    assert_eq!(sin_of(0), 0);
    assert_eq!(cos_of(0), 10_000);
    assert_eq!(sin_of(900), 10_000);
    assert_eq!(sin_of(2700), -10_000);
    assert_eq!(cos_of(1800), -10_000);
}

#[test]
fn score_table() {
    assert_eq!(points_for(40_000, false, 1), 20);
    assert_eq!(points_for(40_000, false, 4), 40);
    assert_eq!(points_for(40_000, true, 1), 100);
    assert_eq!(points_for(20_000, false, 1), 50);
    assert_eq!(points_for(10_000, false, 1), 100);
}

#[test]
fn level_formulas() {
    assert_eq!(score_multiplier_of(1), 1);
    assert_eq!(score_multiplier_of(3), 1);
    assert_eq!(score_multiplier_of(4), 2);
    assert_eq!(speed_tenths_of(1), 10);
    assert_eq!(speed_tenths_of(2), 13);
    assert_eq!(speed_tenths_of(3), 16);
    assert_eq!(speed_tenths_of(4), 10);
    assert_eq!(spawn_count_of(1), 4);
    assert_eq!(spawn_count_of(4), 4);
    assert_eq!(spawn_count_of(5), 5);
}

#[test]
fn fission_law() {
    let mut rng = Rng::new(3);
    let kids = split(&still_asteroid(1_000, 2_000, 40_000, false), &mut rng);
    assert_eq!(kids.len(), 2);
    for k in &kids {
        assert_eq!(k.size, 20_000);
        assert_eq!(k.position, Vector { x: 1_000, y: 2_000 });
        assert!(!k.is_special);
    }
    assert_eq!(split(&still_asteroid(0, 0, 14_999, false), &mut rng).len(), 0);
    assert_eq!(split(&still_asteroid(0, 0, 15_000, false), &mut rng).len(), 2);
    assert_eq!(split(&still_asteroid(0, 0, 40_000, true), &mut rng).len(), 0);
}

#[test]
fn rng_draws_below_bound() {
    let mut r = Rng::new(0);
    for _ in 0..1000 {
        assert!(r.below(50) < 50);
    }
}

#[test]
fn bullet_takes_first_asteroid_in_list_order() {
    let asts = vec![still_asteroid(100, 100, 40_000, false), still_asteroid(200, 100, 40_000, false)];
    let (m, taken) = match_hits(&vec![still_bullet(150, 100)], &asts);
    assert_eq!(m, vec![Some(0)]);
    assert_eq!(taken, vec![true, false]);
}

#[test]
fn one_asteroid_is_taken_by_one_bullet() {
    let asts = vec![still_asteroid(100, 100, 40_000, false)];
    let (m, taken) = match_hits(&vec![still_bullet(100, 100), still_bullet(110, 100)], &asts);
    assert_eq!(m, vec![Some(0), None]);
    assert_eq!(taken, vec![true]);
}

#[test]
fn scenario_single_shot() {
    let mut g = quiet_game(vec![still_asteroid(100_000, 100_000, 40_000, false)]);
    g.bullets.push(still_bullet(100_000, 100_000));
    g.update();
    assert_eq!(g.get_score(), 20);
    assert_eq!(g.asteroids.len(), 2);
    for a in &g.asteroids {
        assert_eq!(a.size, 20_000);
        assert_eq!(a.position, Vector { x: 100_000, y: 100_000 });
    }
    assert!(g.bullets.is_empty());
}

#[test]
fn special_asteroid_scores_and_disrupts() {
    let mut g = quiet_game(vec![
        still_asteroid(100_000, 100_000, 40_000, true),
        still_asteroid(700_000, 500_000, 10_000, false),
    ]);
    g.bullets.push(still_bullet(100_000, 100_000));
    g.update();
    assert_eq!(g.get_score(), 100);
    assert_eq!(g.asteroids.len(), 1);
    assert_eq!(g.shock_waves.len(), 1);
    assert_eq!(g.shock_waves[0], ShockWave::new(Vector { x: 100_000, y: 100_000 }));
    assert_eq!(g.disruption_timer, 120);
    assert_ne!(g.disruption_type, DisruptionType::Normal);
    assert_eq!(g.take_sounds(), vec![Sound::SpecialExplosion]);
    for _ in 0..119 {
        g.update();
        assert_ne!(g.disruption_type, DisruptionType::Normal);
    }
    g.update();
    assert_eq!(g.disruption_timer, 0);
    assert_eq!(g.disruption_type, DisruptionType::Normal);
    assert_eq!(g.uncontrollable_force, Vector { x: 0, y: 0 });
}

#[test]
fn invulnerability_after_hit() {
    let mut g = quiet_game(vec![still_asteroid(400_000, 300_000, 40_000, false)]);
    g.update();
    assert_eq!(g.lives, 2);
    assert_eq!(g.respawn_timer, 180);
    assert!(!g.is_game_over());
    assert_eq!(g.take_sounds(), vec![Sound::Explosion]);
    for _ in 0..179 {
        g.update();
        assert_eq!(g.lives, 2);
    }
    g.update();
    assert_eq!(g.lives, 1);
}

#[test]
fn level_pacing() {
    let mut g = quiet_game(vec![still_asteroid(100_000, 100_000, 10_000, false)]);
    g.bullets.push(still_bullet(100_000, 100_000));
    g.update();
    assert_eq!(g.get_score(), 100);
    assert_eq!(g.get_level(), 2);
    assert_eq!(g.level_transition_timer, 300);
    assert_eq!(g.take_sounds(), vec![Sound::LevelComplete]);
    g.ship.velocity = Vector { x: 1_000, y: 0 };
    let ship = g.ship;
    for _ in 0..299 {
        g.update();
        assert!(g.asteroids.is_empty());
        assert_eq!(g.ship, ship);
    }
    assert_eq!(g.level_transition_timer, 1);
    g.update();
    assert_eq!(g.level_transition_timer, 0);
    assert_eq!(g.asteroids.len(), 4);
    assert_eq!(g.get_level(), 2);
}

#[test]
fn game_over_is_terminal() {
    let mut g = quiet_game(vec![still_asteroid(400_000, 300_000, 40_000, false)]);
    g.lives = 1;
    g.score = 70;
    g.update();
    assert!(g.is_game_over());
    assert_eq!(g.lives, 0);
    let asteroids = g.asteroids.clone();
    for _ in 0..10 {
        g.update();
    }
    assert_eq!(g.get_score(), 70);
    assert_eq!(g.get_level(), 1);
    assert_eq!(g.asteroids, asteroids);
    g.reset();
    assert!(!g.is_game_over());
    assert_eq!(g.lives, 3);
    assert_eq!(g.get_score(), 0);
}

#[test]
fn commands_follow_disruption() {
    let mut g = quiet_game(vec![]);
    g.rotate(100);
    assert_eq!(g.ship.rotation, 100);
    g.rotate(-200);
    assert_eq!(g.ship.rotation, 3500);
    g.disruption_type = DisruptionType::Scrambled;
    g.disruption_timer = 50;
    g.rotate(100);
    assert_eq!(g.ship.rotation, 3400);
    g.disruption_type = DisruptionType::Disabled;
    g.rotate(100);
    g.thrust();
    g.shoot();
    assert_eq!(g.ship.rotation, 3400);
    assert!(g.bullets.is_empty());
    assert!(g.take_sounds().is_empty());
}

#[test]
fn thrust_and_shoot() {
    let mut g = quiet_game(vec![]);
    g.thrust();
    assert_eq!(g.ship.velocity, Vector { x: 0, y: -100 });
    g.disruption_type = DisruptionType::Scrambled;
    g.disruption_timer = 5;
    g.thrust();
    assert_eq!(g.ship.velocity, Vector { x: 100, y: -100 });
    g.disruption_type = DisruptionType::Normal;
    g.disruption_timer = 0;
    g.shoot();
    assert_eq!(g.bullets.len(), 1);
    assert_eq!(g.bullets[0].position, Vector { x: 400_000, y: 280_000 });
    assert_eq!(g.bullets[0].velocity, Vector { x: 0, y: -10_000 });
    assert_eq!(g.take_sounds(), vec![Sound::Thrust, Sound::Thrust, Sound::Shoot]);
}

#[test]
fn overlay_shows_countdown_and_blink() {
    let mut g = quiet_game(vec![]);
    g.level_transition_timer = 300;
    let o = g.render();
    assert_eq!(o.countdown, 6);
    assert!(!o.show_entities);
    g.level_transition_timer = 0;
    g.respawn_timer = 25;
    assert!(!g.render().show_ship);
    g.respawn_timer = 15;
    assert!(g.render().show_ship);
    g.disruption_type = DisruptionType::Disabled;
    g.disruption_timer = 3;
    assert_eq!(g.render().banner, DisruptionType::Disabled);
}

#[test]
fn bullet_spawns_ahead_of_ship_without_wrap() {
    let mut g = quiet_game(vec![]);
    g.ship.position = Vector { x: 400_000, y: 10_000 };
    g.shoot();
    assert_eq!(g.bullets[0].position, Vector { x: 400_000, y: -10_000 });
    g.asteroids.push(still_asteroid(700_000, 500_000, 10_000, false));
    g.update();
    assert_eq!(g.bullets[0].position, Vector { x: 400_000, y: 600_000 });
}

#[test]
fn level_asteroids_follow_the_draws() {
    let g = Game::new(1234);
    let mut r = Rng::new(1234);
    for a in &g.asteroids {
        let x = r.below(800_000) as i64;
        let y = r.below(600_000) as i64;
        let h = r.below(3600) as i64;
        let special = r.below(50) == 0;
        assert_eq!(a.position, Vector { x, y });
        assert_eq!(a.velocity, along_heading(h, 2000));
        assert_eq!(a.is_special, special);
        assert!(x < 800_000 && y < 600_000);
    }
    assert_eq!(g.rng, r);
}

#[test]
fn disruption_kind_follows_the_draw() {
    for seed in 0..30u64 {
        let mut g = quiet_game(vec![]);
        g.rng = Rng::new(seed);
        let mut r = Rng::new(seed);
        let k = r.below(3);
        g.trigger_disruption();
        assert_eq!(g.disruption_timer, 120);
        let expected = match k {
            0 => DisruptionType::Disabled,
            1 => DisruptionType::Scrambled,
            _ => DisruptionType::Uncontrollable,
        };
        assert_eq!(g.disruption_type, expected);
        if k == 2 {
            let h = r.below(3600) as i64;
            assert_eq!(g.uncontrollable_force, along_heading(h, 200));
            let f = g.uncontrollable_force;
            let len_sq = f.x * f.x + f.y * f.y;
            assert!((39_000..=40_100).contains(&len_sq));
        }
    }
}

#[test]
fn split_children_take_successive_headings() {
    let mut rng = Rng::new(11);
    let mut r = Rng::new(11);
    let kids = split(&still_asteroid(5_000, 6_000, 40_000, false), &mut rng);
    assert_eq!(kids[0].velocity, along_heading(r.below(3600) as i64, 2000));
    assert_eq!(kids[1].velocity, along_heading(r.below(3600) as i64, 2000));
    assert_eq!(rng, r);
}
