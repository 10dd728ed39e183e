use space_shooter::effects::{
    debris_collision_bursts, debris_shot_bursts, player_destroyed_bursts, player_hit_bursts,
    ship_strike_bursts, Burst, BurstKind, BURST_LAYER,
};
use space_shooter::roster::{emitter_roster, scene_roster};

fn planets() -> Vec<String> {
    vec!["terra".to_string(), "ice".to_string()]
}

#[test]
fn roster_lists_every_object_in_order() {
    let r = scene_roster(&planets());
    assert_eq!(r.len(), 10 + 2 + 2 + 30 + 20 + 5 + 40);
    let names: Vec<&str> = r.iter().map(|e| e.name.as_str()).collect();
    assert_eq!(
        &names[..14],
        &[
            "bg", "player", "hull_bar", "shield_bar", "hull_label", "score_display", "minimap",
            "pause_overlay", "controls_panel", "grav_debug_text", "terra", "ice",
            "terra_grav_ring", "ice_grav_ring",
        ]
    );
    assert_eq!(names[14], "plaser_0");
    assert_eq!(names[43], "plaser_29");
    assert_eq!(names[44], "elaser_0");
    assert_eq!(names[64], "enemy_0");
    assert_eq!(names[69], "debris_0");
    assert_eq!(names[108], "debris_39");
}

#[test]
fn roster_layers_tags_and_visibility() {
    let r = scene_roster(&planets());
    let find = |n: &str| r.iter().find(|e| e.name == n).unwrap();
    let bg = find("bg");
    assert_eq!((bg.layer, bg.tag.as_str(), bg.visible, bg.fixed_to_screen), (0, "", true, true));
    let player = find("player");
    assert_eq!((player.layer, player.tag.as_str(), player.visible, player.fixed_to_screen), (5, "player", true, false));
    let pause = find("pause_overlay");
    assert_eq!((pause.layer, pause.tag.as_str(), pause.visible), (20, "hud", false));
    let panel = find("controls_panel");
    assert_eq!((panel.layer, panel.visible, panel.fixed_to_screen), (21, false, true));
    let text = find("grav_debug_text");
    assert_eq!((text.layer, text.visible), (10, false));
    let planet = find("ice");
    assert_eq!((planet.layer, planet.tag.as_str(), planet.visible), (2, "planet_grav", true));
    let ring = find("ice_grav_ring");
    assert_eq!((ring.layer, ring.tag.as_str(), ring.visible), (1, "", false));
    let laser = find("plaser_7");
    assert_eq!((laser.layer, laser.tag.as_str(), laser.visible), (4, "player_laser", false));
    let elaser = find("elaser_19");
    assert_eq!((elaser.layer, elaser.tag.as_str(), elaser.visible), (4, "enemy_laser", false));
    let enemy = find("enemy_4");
    assert_eq!((enemy.layer, enemy.tag.as_str(), enemy.visible), (5, "enemy", true));
    let debris = find("debris_12");
    assert_eq!((debris.layer, debris.tag.as_str(), debris.visible), (3, "debris", true));
}

#[test]
fn emitters_exhaust_then_auras() {
    let e = emitter_roster(&planets());
    assert_eq!(e.len(), 3);
    assert_eq!((e[0].name.as_str(), e[0].render_layer, e[0].follows_player), ("player_exhaust", 4, true));
    assert_eq!((e[1].name.as_str(), e[1].render_layer, e[1].follows_player), ("terra_aura", 1, false));
    assert_eq!(e[2].name, "ice_aura");
}

#[test]
fn particle_bursts() {
    assert_eq!(BURST_LAYER, 6);
    assert_eq!(ship_strike_bursts(true), vec![Burst { kind: BurstKind::Explosion, particles: 40 }]);
    assert_eq!(
        ship_strike_bursts(false),
        vec![Burst { kind: BurstKind::DamageBurst, particles: 15 }, Burst { kind: BurstKind::Sparks, particles: 8 }]
    );
    assert_eq!(
        debris_shot_bursts(),
        vec![Burst { kind: BurstKind::AsteroidDebris, particles: 12 }, Burst { kind: BurstKind::DamageBurst, particles: 15 }]
    );
    assert_eq!(player_hit_bursts(), ship_strike_bursts(false));
    assert_eq!(debris_collision_bursts(), vec![Burst { kind: BurstKind::Sparks, particles: 6 }]);
    assert_eq!(player_destroyed_bursts(), ship_strike_bursts(true));
}
