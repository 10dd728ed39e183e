use space_shooter::hud::gravity_report;
use space_shooter::names::{
    aura_id, debris_id, enemy_id, enemy_laser_id, gravity_ring_id, numbered_id, player_laser_id,
    score_text,
};

#[test]
fn gravity_report_without_planets() {
    assert_eq!(gravity_report(Some("terra"), &vec![]), "Gravity: none");
    assert_eq!(gravity_report(None, &vec![]), "Gravity: none");
}

#[test]
fn gravity_report_lists_planets() {
    let in_range = vec!["terra".to_string(), "moon_a".to_string()];
    assert_eq!(
        gravity_report(Some("terra"), &in_range),
        "Dominant: terra | In range: terra, moon_a"
    );
    assert_eq!(
        gravity_report(None, &vec!["ice".to_string()]),
        "Dominant: none | In range: ice"
    );
}

#[test]
fn object_ids() {
    assert_eq!(player_laser_id(0), "plaser_0");
    assert_eq!(enemy_laser_id(19), "elaser_19");
    assert_eq!(enemy_id(4), "enemy_4");
    assert_eq!(debris_id(39), "debris_39");
    assert_eq!(numbered_id("x", 1234567890), "x_1234567890");
    assert_eq!(gravity_ring_id("giant"), "giant_grav_ring");
    assert_eq!(aura_id("moon_b"), "moon_b_aura");
    assert_ne!(debris_id(1), debris_id(10));
}

#[test]
fn score_readout() {
    assert_eq!(score_text(0), "SCORE: 0");
    assert_eq!(score_text(120), "SCORE: 120");
    assert_eq!(score_text(u64::MAX), format!("SCORE: {}", u64::MAX));
}
