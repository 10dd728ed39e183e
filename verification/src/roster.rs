use vstd::prelude::*;
use vstd::string::StringExecFns;

use crate::config::{DEBRIS_COUNT, ENEMY_COUNT, ENEMY_LASER_POOL_SIZE, LASER_POOL_SIZE};
use crate::names::{
    aura_id, debris_id, enemy_id, enemy_laser_id, gravity_ring_id, numbered_name, player_laser_id,
};

verus! {

/// One object of the game scene, as far as it is not geometry: its name,
/// its drawing layer, its tag (empty for none), whether it starts visible,
/// and whether it stays fixed on the screen when the camera zooms.
#[derive(Debug, PartialEq, Eq)]
pub struct SceneEntry {
    pub name: String,
    pub layer: u32,
    pub tag: String,
    pub visible: bool,
    pub fixed_to_screen: bool,
}

/// A scene object as plain values: name, layer, tag, visible, fixed.
pub type EntryView = (Seq<char>, u32, Seq<char>, bool, bool);

pub open spec fn entry_view(e: SceneEntry) -> EntryView {
    (e.name@, e.layer, e.tag@, e.visible, e.fixed_to_screen)
}

/// The backdrop, the player's ship and the overlays, in the order the scene
/// receives them.
pub open spec fn fixed_entries() -> Seq<EntryView> {
    seq![
        ("bg"@, 0u32, ""@, true, true),
        ("player"@, 5u32, "player"@, true, false),
        ("hull_bar"@, 10u32, "hud"@, true, true),
        ("shield_bar"@, 10u32, "hud"@, true, true),
        ("hull_label"@, 10u32, "hud"@, true, true),
        ("score_display"@, 10u32, "hud"@, true, true),
        ("minimap"@, 10u32, "hud"@, true, true),
        ("pause_overlay"@, 20u32, "hud"@, false, true),
        ("controls_panel"@, 21u32, "hud"@, false, true),
        ("grav_debug_text"@, 10u32, "hud"@, false, true),
    ]
}

/// The whole scene in the order it receives its objects: the fixed entries,
/// each planet, each planet's hidden gravity ring, the hidden player laser
/// slots, the hidden enemy laser slots, the enemy ships and the debris.
pub open spec fn scene_roster_view(planets: Seq<Seq<char>>) -> Seq<EntryView> {
    fixed_entries() + planets.map_values(|p: Seq<char>| (p, 2u32, "planet_grav"@, true, false))
        + planets.map_values(|p: Seq<char>| (p + "_grav_ring"@, 1u32, ""@, false, false)) + Seq::new(
        LASER_POOL_SIZE as nat,
        |i: int| (numbered_name("plaser"@, i as nat), 4u32, "player_laser"@, false, false),
    ) + Seq::new(
        ENEMY_LASER_POOL_SIZE as nat,
        |i: int| (numbered_name("elaser"@, i as nat), 4u32, "enemy_laser"@, false, false),
    ) + Seq::new(ENEMY_COUNT as nat, |i: int| (numbered_name("enemy"@, i as nat), 5u32, "enemy"@, true, false))
        + Seq::new(
        DEBRIS_COUNT as nat,
        |i: int| (numbered_name("debris"@, i as nat), 3u32, "debris"@, true, false),
    )
}

fn entry(name: String, layer: u32, tag: &str, visible: bool, fixed_to_screen: bool) -> (e: SceneEntry)
    ensures
        entry_view(e) == (name@, layer, tag@, visible, fixed_to_screen),
{
    SceneEntry { name, layer, tag: String::from_str(tag), visible, fixed_to_screen }
}

fn push_entry(roster: &mut Vec<SceneEntry>, e: SceneEntry)
    ensures
        final(roster)@.map_values(|x: SceneEntry| entry_view(x)) == old(roster)@.map_values(
            |x: SceneEntry| entry_view(x),
        ).push(entry_view(e)),
{
    let ghost v = entry_view(e);
    roster.push(e);
    assert(roster@.map_values(|x: SceneEntry| entry_view(x)) =~= old(roster)@.map_values(
        |x: SceneEntry| entry_view(x),
    ).push(v));
}

/// Lists the scene's objects, given the planets' names in order.
pub fn scene_roster(planet_names: &Vec<String>) -> (roster: Vec<SceneEntry>)
    ensures
        roster@.map_values(|e: SceneEntry| entry_view(e)) == scene_roster_view(
            planet_names@.map_values(|p: String| p@),
        ),
{
    let ghost planets = planet_names@.map_values(|p: String| p@);
    let mut roster: Vec<SceneEntry> = Vec::new();
    push_entry(&mut roster, entry(String::from_str("bg"), 0, "", true, true));
    push_entry(&mut roster, entry(String::from_str("player"), 5, "player", true, false));
    push_entry(&mut roster, entry(String::from_str("hull_bar"), 10, "hud", true, true));
    push_entry(&mut roster, entry(String::from_str("shield_bar"), 10, "hud", true, true));
    push_entry(&mut roster, entry(String::from_str("hull_label"), 10, "hud", true, true));
    push_entry(&mut roster, entry(String::from_str("score_display"), 10, "hud", true, true));
    push_entry(&mut roster, entry(String::from_str("minimap"), 10, "hud", true, true));
    push_entry(&mut roster, entry(String::from_str("pause_overlay"), 20, "hud", false, true));
    push_entry(&mut roster, entry(String::from_str("controls_panel"), 21, "hud", false, true));
    push_entry(&mut roster, entry(String::from_str("grav_debug_text"), 10, "hud", false, true));
    let ghost acc0 = roster@.map_values(|x: SceneEntry| entry_view(x));
    assert(acc0 =~= fixed_entries());

    let n = planet_names.len();
    let mut i: usize = 0;
    while i < n
        invariant
            n == planet_names@.len(),
            i <= n,
            planets == planet_names@.map_values(|p: String| p@),
            roster@.map_values(|x: SceneEntry| entry_view(x)) =~= fixed_entries() + planets.take(
                i as int,
            ).map_values(|p: Seq<char>| (p, 2u32, "planet_grav"@, true, false)),
        decreases n - i,
    {
        let name = planet_names[i].clone();
        push_entry(&mut roster, entry(name, 2, "planet_grav", true, false));
        assert(planets.take(i as int + 1) =~= planets.take(i as int).push(planet_names@[i as int]@));
        i = i + 1;
    }
    assert(planets.take(n as int) =~= planets);
    let ghost acc1 = roster@.map_values(|x: SceneEntry| entry_view(x));

    let mut i: usize = 0;
    while i < n
        invariant
            n == planet_names@.len(),
            i <= n,
            planets == planet_names@.map_values(|p: String| p@),
            roster@.map_values(|x: SceneEntry| entry_view(x)) =~= acc1 + planets.take(i as int).map_values(
                |p: Seq<char>| (p + "_grav_ring"@, 1u32, ""@, false, false),
            ),
        decreases n - i,
    {
        push_entry(&mut roster, entry(gravity_ring_id(planet_names[i].as_str()), 1, "", false, false));
        assert(planets.take(i as int + 1) =~= planets.take(i as int).push(planet_names@[i as int]@));
        i = i + 1;
    }
    assert(planets.take(n as int) =~= planets);
    let ghost acc2 = roster@.map_values(|x: SceneEntry| entry_view(x));

    let mut i: usize = 0;
    while i < LASER_POOL_SIZE
        invariant
            i <= LASER_POOL_SIZE,
            roster@.map_values(|x: SceneEntry| entry_view(x)) =~= acc2 + Seq::new(
                i as nat,
                |j: int| (numbered_name("plaser"@, j as nat), 4u32, "player_laser"@, false, false),
            ),
        decreases LASER_POOL_SIZE - i,
    {
        push_entry(&mut roster, entry(player_laser_id(i), 4, "player_laser", false, false));
        i = i + 1;
    }
    let ghost acc3 = roster@.map_values(|x: SceneEntry| entry_view(x));

    let mut i: usize = 0;
    while i < ENEMY_LASER_POOL_SIZE
        invariant
            i <= ENEMY_LASER_POOL_SIZE,
            roster@.map_values(|x: SceneEntry| entry_view(x)) =~= acc3 + Seq::new(
                i as nat,
                |j: int| (numbered_name("elaser"@, j as nat), 4u32, "enemy_laser"@, false, false),
            ),
        decreases ENEMY_LASER_POOL_SIZE - i,
    {
        push_entry(&mut roster, entry(enemy_laser_id(i), 4, "enemy_laser", false, false));
        i = i + 1;
    }
    let ghost acc4 = roster@.map_values(|x: SceneEntry| entry_view(x));

    let mut i: usize = 0;
    while i < ENEMY_COUNT
        invariant
            i <= ENEMY_COUNT,
            roster@.map_values(|x: SceneEntry| entry_view(x)) =~= acc4 + Seq::new(
                i as nat,
                |j: int| (numbered_name("enemy"@, j as nat), 5u32, "enemy"@, true, false),
            ),
        decreases ENEMY_COUNT - i,
    {
        push_entry(&mut roster, entry(enemy_id(i), 5, "enemy", true, false));
        i = i + 1;
    }
    let ghost acc5 = roster@.map_values(|x: SceneEntry| entry_view(x));

    let mut i: usize = 0;
    while i < DEBRIS_COUNT
        invariant
            i <= DEBRIS_COUNT,
            roster@.map_values(|x: SceneEntry| entry_view(x)) =~= acc5 + Seq::new(
                i as nat,
                |j: int| (numbered_name("debris"@, j as nat), 3u32, "debris"@, true, false),
            ),
        decreases DEBRIS_COUNT - i,
    {
        push_entry(&mut roster, entry(debris_id(i), 3, "debris", true, false));
        i = i + 1;
    }
    assert(roster@.map_values(|x: SceneEntry| entry_view(x)) =~= scene_roster_view(planets));
    roster
}

/// Which objects a fresh scene shows.  Hidden at first are exactly the
/// pause overlay, the controls panel, the gravity text, the planets' gravity
/// rings and the laser slots; the backdrop, the player's ship, the other HUD
/// objects (bars, label, score readout, minimap), the planets, the enemy
/// ships and the debris all start visible.  Every object carries one of the
/// scene's tags, and the ten fixed objects come first, in order.
pub proof fn law_roster_visibility(planets: Seq<Seq<char>>)
    ensures
        ({
            let r = scene_roster_view(planets);
            &&& r.len() == 10 + 2 * planets.len() + LASER_POOL_SIZE + ENEMY_LASER_POOL_SIZE + ENEMY_COUNT + DEBRIS_COUNT
            &&& r[0].0 == "bg"@ && r[1].0 == "player"@ && r[2].0 == "hull_bar"@ && r[3].0 == "shield_bar"@
            &&& r[4].0 == "hull_label"@ && r[5].0 == "score_display"@ && r[6].0 == "minimap"@
            &&& r[7].0 == "pause_overlay"@ && r[8].0 == "controls_panel"@ && r[9].0 == "grav_debug_text"@
            &&& forall|i: int|
                0 <= i < r.len() ==> {
                    let e = #[trigger] r[i];
                    &&& (e.2 == "hud"@ || e.2 == "player"@ || e.2 == "planet_grav"@ || e.2 == "enemy"@
                        || e.2 == "debris"@ || e.2 == "player_laser"@ || e.2 == "enemy_laser"@ || e.2 == ""@)
                    &&& e.2 == "hud"@ ==> (e.3 <==> (e.0 != "pause_overlay"@ && e.0 != "controls_panel"@
                        && e.0 != "grav_debug_text"@))
                    &&& (e.2 == "player"@ || e.2 == "planet_grav"@ || e.2 == "enemy"@ || e.2 == "debris"@) ==> e.3
                    &&& (e.2 == "player_laser"@ || e.2 == "enemy_laser"@) ==> !e.3
                    &&& e.2 == ""@ ==> (e.3 <==> e.0 == "bg"@)
                }
        }),
{
    reveal_strlit("bg");
    reveal_strlit("player");
    reveal_strlit("hull_bar");
    reveal_strlit("shield_bar");
    reveal_strlit("hull_label");
    reveal_strlit("score_display");
    reveal_strlit("minimap");
    reveal_strlit("pause_overlay");
    reveal_strlit("controls_panel");
    reveal_strlit("grav_debug_text");
    reveal_strlit("hud");
    reveal_strlit("planet_grav");
    reveal_strlit("enemy");
    reveal_strlit("debris");
    reveal_strlit("player_laser");
    reveal_strlit("enemy_laser");
    reveal_strlit("");
    reveal_strlit("_grav_ring");
    let r = scene_roster_view(planets);
    let np = planets.len() as int;
    let f = fixed_entries();
    let a = planets.map_values(|p: Seq<char>| (p, 2u32, "planet_grav"@, true, false));
    let b = planets.map_values(|p: Seq<char>| (p + "_grav_ring"@, 1u32, ""@, false, false));
    let c = Seq::new(
        LASER_POOL_SIZE as nat,
        |i: int| (numbered_name("plaser"@, i as nat), 4u32, "player_laser"@, false, false),
    );
    let d = Seq::new(
        ENEMY_LASER_POOL_SIZE as nat,
        |i: int| (numbered_name("elaser"@, i as nat), 4u32, "enemy_laser"@, false, false),
    );
    let g = Seq::new(ENEMY_COUNT as nat, |i: int| (numbered_name("enemy"@, i as nat), 5u32, "enemy"@, true, false));
    let h = Seq::new(DEBRIS_COUNT as nat, |i: int| (numbered_name("debris"@, i as nat), 3u32, "debris"@, true, false));
    assert(r == f + a + b + c + d + g + h);
    assert("hud"@.len() == 3 && ""@.len() == 0 && "player"@.len() == 6 && "enemy"@.len() == 5);
    assert("debris"@.len() == 6 && "planet_grav"@.len() == 11 && "player_laser"@.len() == 12);
    assert("enemy_laser"@.len() == 11 && "bg"@.len() == 2);
    assert("player"@[0] != "debris"@[0] && "planet_grav"@[0] != "enemy_laser"@[0]);
    assert("score_display"@[0] != "pause_overlay"@[0]);
    assert("hull_bar"@.len() == 8 && "shield_bar"@.len() == 10 && "hull_label"@.len() == 10);
    assert("minimap"@.len() == 7 && "score_display"@.len() == 13 && "pause_overlay"@.len() == 13);
    assert("controls_panel"@.len() == 14 && "grav_debug_text"@.len() == 15);
    assert forall|i: int| 0 <= i < r.len() implies {
        let e = #[trigger] r[i];
        &&& (e.2 == "hud"@ || e.2 == "player"@ || e.2 == "planet_grav"@ || e.2 == "enemy"@
            || e.2 == "debris"@ || e.2 == "player_laser"@ || e.2 == "enemy_laser"@ || e.2 == ""@)
        &&& e.2 == "hud"@ ==> (e.3 <==> (e.0 != "pause_overlay"@ && e.0 != "controls_panel"@
            && e.0 != "grav_debug_text"@))
        &&& (e.2 == "player"@ || e.2 == "planet_grav"@ || e.2 == "enemy"@ || e.2 == "debris"@) ==> e.3
        &&& (e.2 == "player_laser"@ || e.2 == "enemy_laser"@) ==> !e.3
        &&& e.2 == ""@ ==> (e.3 <==> e.0 == "bg"@)
    } by {
        if i < 10 {
            assert(r[i] == f[i]);
        } else if i < 10 + np {
            assert(r[i] == a[i - 10]);
        } else if i < 10 + 2 * np {
            assert(r[i] == b[i - 10 - np]);
            assert((planets[i - 10 - np] + "_grav_ring"@).len() != "bg"@.len());
        } else if i < 10 + 2 * np + 30 {
            assert(r[i] == c[i - 10 - 2 * np]);
        } else if i < 10 + 2 * np + 50 {
            assert(r[i] == d[i - 10 - 2 * np - 30]);
        } else if i < 10 + 2 * np + 55 {
            assert(r[i] == g[i - 10 - 2 * np - 50]);
        } else {
            assert(r[i] == h[i - 10 - 2 * np - 55]);
        }
    }
}

/// One particle emitter of the scene: its name, its drawing layer and
/// whether it rides along with the player's ship.
#[derive(Debug, PartialEq, Eq)]
pub struct EmitterEntry {
    pub name: String,
    pub render_layer: u32,
    pub follows_player: bool,
}

pub open spec fn emitter_view(e: EmitterEntry) -> (Seq<char>, u32, bool) {
    (e.name@, e.render_layer, e.follows_player)
}

/// The scene's emitters: the player's exhaust, drawn on layer 4 and riding
/// with the ship, then one aura per planet, drawn on layer 1.
pub open spec fn emitter_roster_view(planets: Seq<Seq<char>>) -> Seq<(Seq<char>, u32, bool)> {
    seq![("player_exhaust"@, 4u32, true)] + planets.map_values(|p: Seq<char>| (p + "_aura"@, 1u32, false))
}

/// Lists the scene's emitters, given the planets' names in order.
pub fn emitter_roster(planet_names: &Vec<String>) -> (emitters: Vec<EmitterEntry>)
    ensures
        emitters@.map_values(|e: EmitterEntry| emitter_view(e)) == emitter_roster_view(
            planet_names@.map_values(|p: String| p@),
        ),
{
    let ghost planets = planet_names@.map_values(|p: String| p@);
    let mut emitters: Vec<EmitterEntry> = Vec::new();
    emitters.push(EmitterEntry { name: String::from_str("player_exhaust"), render_layer: 4, follows_player: true });
    let n = planet_names.len();
    let mut i: usize = 0;
    while i < n
        invariant
            n == planet_names@.len(),
            i <= n,
            planets == planet_names@.map_values(|p: String| p@),
            emitters@.map_values(|e: EmitterEntry| emitter_view(e)) =~= seq![("player_exhaust"@, 4u32, true)]
                + planets.take(i as int).map_values(|p: Seq<char>| (p + "_aura"@, 1u32, false)),
        decreases n - i,
    {
        let e = EmitterEntry { name: aura_id(planet_names[i].as_str()), render_layer: 1, follows_player: false };
        let ghost v = emitter_view(e);
        let ghost before = emitters@;
        emitters.push(e);
        assert(emitters@.map_values(|x: EmitterEntry| emitter_view(x)) =~= before.map_values(
            |x: EmitterEntry| emitter_view(x),
        ).push(v));
        assert(planets.take(i as int + 1) =~= planets.take(i as int).push(planet_names@[i as int]@));
        i = i + 1;
    }
    assert(planets.take(n as int) =~= planets);
    emitters
}

} // verus!
