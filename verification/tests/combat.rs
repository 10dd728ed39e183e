use space_shooter::config::{
    debris_kind, DebrisKind, ENEMY_FIRE_COOLDOWN, ENEMY_HULL, ENEMY_LASER_POOL_SIZE,
    LASER_LIFETIME, LASER_POOL_SIZE, SHIELD_REGEN_DELAY,
};
use space_shooter::controls::{Command, Effect};
use space_shooter::enemies::EnemyUnit;
use space_shooter::lasers::{LaserPool, LaserSlot};
use space_shooter::session::Session;

#[test]
fn fresh_pool_is_idle() {
    let pool = LaserPool::new(4);
    assert_eq!(pool.slots.len(), 4);
    assert!(pool.slots.iter().all(|s| *s == LaserSlot { alive: false, age: 0 }));
}

#[test]
fn laser_flies_for_its_lifetime() {
    let mut pool = LaserPool::new(3);
    pool.slots[1] = LaserSlot { alive: true, age: 0 };
    for tick in 1..=LASER_LIFETIME {
        let expired = pool.advance();
        assert!(expired.is_empty(), "expired early on tick {}", tick);
        assert!(pool.is_alive(1));
        assert_eq!(pool.slots[1].age, tick);
    }
    let expired = pool.advance();
    assert_eq!(expired, vec![1]);
    assert!(!pool.is_alive(1));
    assert_eq!(pool.slots[1].age, LASER_LIFETIME + 1);
    assert!(pool.advance().is_empty());
    assert_eq!(pool.slots[0], LaserSlot { alive: false, age: 0 });
}

#[test]
fn expired_slots_listed_in_order() {
    let mut pool = LaserPool::new(5);
    pool.slots[0] = LaserSlot { alive: true, age: LASER_LIFETIME };
    pool.slots[2] = LaserSlot { alive: true, age: 10 };
    pool.slots[4] = LaserSlot { alive: true, age: LASER_LIFETIME };
    pool.slots[3] = LaserSlot { alive: false, age: 7 };
    let expired = pool.advance();
    assert_eq!(expired, vec![0, 4]);
    assert_eq!(pool.slots[2], LaserSlot { alive: true, age: 11 });
    assert_eq!(pool.slots[3], LaserSlot { alive: false, age: 7 });
}

#[test]
fn retire_keeps_age() {
    let mut pool = LaserPool::new(2);
    pool.slots[0] = LaserSlot { alive: true, age: 0 };
    pool.advance();
    pool.retire(0);
    assert_eq!(pool.slots[0], LaserSlot { alive: false, age: 1 });
}

#[test]
fn enemy_dies_on_fourth_hit() {
    let mut u = EnemyUnit::fresh(7);
    assert_eq!(u.hull, ENEMY_HULL);
    assert!(!u.take_hit());
    assert_eq!(u.hull, 28);
    assert!(!u.take_hit());
    assert_eq!(u.hull, 16);
    assert!(!u.take_hit());
    assert_eq!(u.hull, 4);
    assert!(u.alive);
    assert!(u.take_hit());
    assert_eq!(u.hull, -8);
    assert!(!u.alive);
    assert_eq!(u.fire_cooldown, 7);
}

#[test]
fn enemy_fire_control() {
    let mut u = EnemyUnit::fresh(2);
    assert!(!u.pursue(true));
    assert_eq!(u.fire_cooldown, 1);
    assert!(u.pursue(true));
    assert_eq!(u.fire_cooldown, ENEMY_FIRE_COOLDOWN);
    for _ in 0..ENEMY_FIRE_COOLDOWN - 1 {
        assert!(!u.pursue(true));
    }
    assert_eq!(u.fire_cooldown, 1);
    assert!(!u.pursue(false));
    assert_eq!(u.fire_cooldown, 0);
    assert!(!u.pursue(false));
    assert_eq!(u.fire_cooldown, 0);
    assert!(u.pursue(true));
}

#[test]
fn new_session_is_quiet() {
    let s = Session::new(&vec![3, 0, 39]);
    assert!(!s.flags.paused && !s.flags.game_over && !s.flags.show_controls && !s.flags.show_gravity_debug);
    assert_eq!((s.score, s.ticks, s.fire_cooldown, s.shield_regen_timer), (0, 0, 0, 0));
    assert_eq!(s.player_lasers.slots.len(), LASER_POOL_SIZE);
    assert_eq!(s.enemy_lasers.slots.len(), ENEMY_LASER_POOL_SIZE);
    assert_eq!(s.enemies.len(), 3);
    assert_eq!(s.enemies[2], EnemyUnit { alive: true, hull: ENEMY_HULL, fire_cooldown: 39 });
}

#[test]
fn paused_or_finished_session_is_frozen() {
    let mut s = Session::new(&vec![1]);
    assert!(s.begin_tick());
    assert_eq!(s.ticks, 1);
    assert_eq!(s.apply(Command::TogglePause), vec![Effect::ShowPauseOverlay, Effect::Pause]);
    assert!(!s.begin_tick());
    assert_eq!(s.ticks, 1);
    s.apply(Command::TogglePause);
    assert!(s.begin_tick());
    assert_eq!(s.ticks, 2);
    s.end_game();
    assert!(s.flags.game_over);
    assert!(!s.begin_tick());
    assert_eq!(s.ticks, 2);
    assert!(s.apply(Command::TogglePause).is_empty());
    assert_eq!(s.apply(Command::Restart), vec![Effect::ReloadScene]);
    assert!(!s.flags.game_over);
    assert!(s.begin_tick());
    assert_eq!(s.ticks, 1);
}

#[test]
fn restart_after_game_over_starts_fresh_game() {
    let mut s = Session::new(&vec![7, 3]);
    s.apply(Command::ToggleGravityDebug);
    assert!(s.begin_tick());
    s.fire_cooldown = 4;
    s.shield_regen_timer = 9;
    s.player_lasers.slots[2] = LaserSlot { alive: true, age: 5 };
    assert!(!s.laser_hits_enemy(2, 1));
    s.laser_hits_debris(0);
    s.enemies[0].fire_cooldown = 0;
    s.end_game();
    assert_eq!(s.apply(Command::Restart), vec![Effect::ReloadScene]);
    let fresh = Session::new(&vec![7, 3]);
    assert_eq!(s.flags, fresh.flags);
    assert_eq!(
        (s.score, s.ticks, s.fire_cooldown, s.shield_regen_timer),
        (0, 0, 0, 0)
    );
    assert_eq!(s.player_lasers.slots, fresh.player_lasers.slots);
    assert_eq!(s.enemy_lasers.slots, fresh.enemy_lasers.slots);
    assert_eq!(s.enemies, fresh.enemies);
    assert_eq!(s.start_cooldowns, vec![7, 3]);
}

#[test]
fn restart_while_playing_keeps_the_game() {
    let mut s = Session::new(&vec![7]);
    assert!(s.begin_tick());
    s.laser_hits_debris(0);
    assert!(s.apply(Command::Restart).is_empty());
    assert_eq!((s.score, s.ticks), (10, 1));
}

#[test]
fn gun_cools_to_zero() {
    let mut s = Session::new(&vec![]);
    s.fire_cooldown = 2;
    s.cool_gun();
    assert_eq!(s.fire_cooldown, 1);
    s.cool_gun();
    s.cool_gun();
    assert_eq!(s.fire_cooldown, 0);
}

#[test]
fn shield_regenerates_after_delay() {
    let mut s = Session::new(&vec![]);
    for _ in 1..SHIELD_REGEN_DELAY {
        assert!(!s.tick_shield(true));
    }
    assert!(!s.tick_shield(false));
    assert_eq!(s.shield_regen_timer, SHIELD_REGEN_DELAY - 1);
    assert!(s.tick_shield(true));
    assert!(s.tick_shield(true));
    s.laser_hits_player(0);
    assert_eq!(s.shield_regen_timer, 0);
    assert!(!s.tick_shield(true));
    s.debris_hits_player();
    assert_eq!(s.shield_regen_timer, 0);
}

#[test]
fn killing_and_shooting_debris_scores() {
    let mut s = Session::new(&vec![5, 5]);
    s.player_lasers.slots[3] = LaserSlot { alive: true, age: 0 };
    for _ in 0..3 {
        assert!(!s.laser_hits_enemy(3, 1));
    }
    assert_eq!(s.score, 0);
    assert!(!s.player_lasers.is_alive(3));
    assert!(s.laser_hits_enemy(3, 1));
    assert_eq!(s.score, 100);
    assert!(!s.enemies[1].alive);
    assert!(s.enemies[0].alive);
    s.laser_hits_debris(0);
    s.laser_hits_debris(1);
    assert_eq!(s.score, 120);
}

#[test]
fn session_lasers_advance() {
    let mut s = Session::new(&vec![]);
    s.player_lasers.slots[5] = LaserSlot { alive: true, age: LASER_LIFETIME };
    s.enemy_lasers.slots[2] = LaserSlot { alive: true, age: LASER_LIFETIME };
    s.enemy_lasers.slots[3] = LaserSlot { alive: true, age: 0 };
    assert_eq!(s.advance_player_lasers(), vec![5]);
    assert_eq!(s.advance_enemy_lasers(), vec![2]);
    assert!(s.enemy_lasers.is_alive(3));
}

#[test]
fn session_pursuit_fires_on_cooldown() {
    let mut s = Session::new(&vec![1, 9]);
    assert!(s.pursue(0, true));
    assert_eq!(s.enemies[0].fire_cooldown, ENEMY_FIRE_COOLDOWN);
    assert!(!s.pursue(1, true));
    assert_eq!(s.enemies[1].fire_cooldown, 8);
}

#[test]
fn debris_kinds_cycle() {
    assert_eq!(debris_kind(0), DebrisKind::Bouncy);
    assert_eq!(debris_kind(1), DebrisKind::Heavy);
    assert_eq!(debris_kind(2), DebrisKind::Slippery);
    assert_eq!(debris_kind(3), DebrisKind::Bouncy);
    assert_eq!(debris_kind(40), DebrisKind::Heavy);
}

use space_shooter::combat::{DebrisStrike, EnemyStrike};

#[test]
fn strikes_go_to_first_flying_ship() {
    let mut s = Session::new(&vec![5, 5, 5]);
    s.enemies[0].hull = 4;
    s.player_lasers.slots[0] = LaserSlot { alive: true, age: 3 };
    s.player_lasers.slots[1] = LaserSlot { alive: true, age: 3 };
    s.player_lasers.slots[2] = LaserSlot { alive: false, age: 3 };
    s.player_lasers.slots[4] = LaserSlot { alive: true, age: 9 };
    let mut hits = vec![vec![false; 3]; LASER_POOL_SIZE];
    hits[0] = vec![true, true, false];
    hits[1] = vec![true, false, true];
    hits[2] = vec![true, true, true];
    hits[4] = vec![false, false, false];
    let strikes = s.resolve_enemy_strikes(&hits);
    assert_eq!(
        strikes,
        vec![
            EnemyStrike { laser: 0, enemy: 0, destroyed: true },
            EnemyStrike { laser: 1, enemy: 2, destroyed: false },
        ]
    );
    assert_eq!(s.score, 100);
    assert!(!s.enemies[0].alive);
    assert_eq!(s.enemies[1].hull, ENEMY_HULL);
    assert_eq!(s.enemies[2].hull, 28);
    assert!(!s.player_lasers.is_alive(0));
    assert!(!s.player_lasers.is_alive(1));
    assert!(s.player_lasers.is_alive(4));
}

#[test]
fn short_hit_table_checks_fewer_lasers() {
    let mut s = Session::new(&vec![5]);
    s.player_lasers.slots[3] = LaserSlot { alive: true, age: 0 };
    let strikes = s.resolve_enemy_strikes(&vec![vec![true], vec![true]]);
    assert!(strikes.is_empty());
    assert!(s.player_lasers.is_alive(3));
}

#[test]
fn debris_shot_by_first_laser_once() {
    let mut s = Session::new(&vec![]);
    s.player_lasers.slots[2] = LaserSlot { alive: true, age: 1 };
    s.player_lasers.slots[5] = LaserSlot { alive: true, age: 1 };
    let mut row_a = vec![false; LASER_POOL_SIZE];
    row_a[2] = true;
    row_a[5] = true;
    let mut row_b = vec![false; LASER_POOL_SIZE];
    row_b[2] = true;
    let mut row_c = vec![false; LASER_POOL_SIZE];
    row_c[5] = true;
    row_c[7] = true;
    let strikes = s.resolve_debris_strikes(&vec![row_a, row_b, row_c, vec![]]);
    assert_eq!(
        strikes,
        vec![DebrisStrike { debris: 0, laser: 2 }, DebrisStrike { debris: 2, laser: 5 }]
    );
    assert_eq!(s.score, 20);
    assert!(!s.player_lasers.is_alive(2));
    assert!(!s.player_lasers.is_alive(5));
}

#[test]
fn session_checks_its_shape() {
    let mut s = Session::new(&vec![3, 4]);
    assert!(s.is_wf());
    assert!(s.player_lasers.slots.iter().all(|l| *l == LaserSlot { alive: false, age: 0 }));
    s.player_lasers.slots[1] = LaserSlot { alive: true, age: LASER_LIFETIME + 1 };
    assert!(!s.is_wf());
    s.player_lasers.slots[1] = LaserSlot { alive: false, age: LASER_LIFETIME + 1 };
    assert!(s.is_wf());
    s.enemies[0].hull = 0;
    assert!(!s.is_wf());
    s.enemies[0].alive = false;
    assert!(s.is_wf());
    s.flags.show_controls = true;
    assert!(!s.is_wf());
    s.flags.paused = true;
    assert!(s.is_wf());
}

#[test]
fn shield_regenerates_on_all_but_first_179_ticks() {
    let mut s = Session::new(&vec![]);
    let mut regens = 0;
    for _ in 0..500 {
        if s.tick_shield(true) {
            regens += 1;
        }
    }
    assert_eq!(regens, 500 - (SHIELD_REGEN_DELAY as usize - 1));
}
