use starwalk::coord::get_coord;
use starwalk::galaxy::{Config, Galaxy, AU, SOL_RADIUS};
use starwalk::rig::{lock_update, sum_deltas, DirInput, LockMode, Rig};
use starwalk::vec3::Vec3;

fn default_config() -> Config {
    Config::default()
}

#[test]
fn default_config_values() {
    let c = default_config();
    assert_eq!(c.galaxy_size, 200 * AU);
    assert_eq!(c.star_radius_min, SOL_RADIUS / 10);
    assert_eq!(c.star_radius_max, 10 * SOL_RADIUS);
    assert_eq!(c.star_separation, 20 * AU);
    assert_eq!(c.palette.len(), 3);
    assert_eq!(c.planet.radius, 100_000);
    assert_eq!(c.planet.translation, Vec3::new(0, 0, 0));
    assert_eq!(c.moon.radius, 25_000);
    assert_eq!(c.moon.translation, Vec3::new(0, 0, 1_000_000));
    assert!(c.check());
}

#[test]
fn generate_is_deterministic() {
    let c = default_config();
    let a = Galaxy::new(String::from("Milky Way"), &c);
    let b = Galaxy::new(String::from("Milky Way"), &c);
    assert_eq!(a.stars.len(), b.stars.len());
    for (s, t) in a.stars.iter().zip(b.stars.iter()) {
        assert_eq!(s.name, t.name);
        assert_eq!(s.translation, t.translation);
        assert_eq!(s.radius, t.radius);
        assert_eq!(s.color, t.color);
    }
}

#[test]
fn anchor_star_is_first_whatever_the_seed() {
    let c = default_config();
    for seed in ["Milky Way", "Andromeda", ""] {
        let g = Galaxy::new(String::from(seed), &c);
        assert_eq!(g.stars.len(), 24);
        assert_eq!(g.stars[0].name, "Sol");
        assert_eq!(g.stars[0].translation, Vec3::new(0, AU, 0));
        assert_eq!(g.stars[0].radius, SOL_RADIUS);
    }
}

#[test]
fn different_seeds_place_stars_differently() {
    let c = default_config();
    let a = Galaxy::new(String::from("Milky Way"), &c);
    let b = Galaxy::new(String::from("Andromeda"), &c);
    assert_ne!(a.stars[1].translation, b.stars[1].translation);
}

#[test]
fn star_radii_and_colors_stay_in_range() {
    let c = default_config();
    let g = Galaxy::new(String::from("Milky Way"), &c);
    for s in g.stars.iter().skip(1) {
        assert!(c.star_radius_min <= s.radius && s.radius < c.star_radius_max);
        assert!(c.palette.contains(&s.color));
    }
}

#[test]
fn separation_push_reaches_minimum_distance() {
    // A candidate ten milli-units from a star with minimum separation
    // one hundred is pushed to distance one hundred and ten.
    let p = Vec3::new(10, 0, 0);
    let o = Vec3::new(0, 0, 0);
    let push = p.sub(&o).scale_to_len(100);
    let corrected = p.add(&push);
    assert_eq!(corrected, Vec3::new(110, 0, 0));
}

#[test]
fn walk_scenario_on_the_sphere() {
    // Planet radius 100 units (100000 milli), contact at the pole, legs
    // facing -z, walking forward at 50 units/s for one second: the
    // tentative position (0, 100000, -50000) clamps back onto the
    // sphere at about (0, 89443, -44721), and a nonzero re-orientation
    // is applied to the contact frame.
    let center = Vec3::new(0, 0, 0);
    let radius: i128 = 100_000;
    let mut rig = Rig::new(&center, radius);
    let before_rot = rig.contact_rot;
    let keys = DirInput { forward: true, back: false, left: false, right: false };
    rig.tick(keys, 50_000, 1_000, &center, radius);
    assert_eq!(rig.contact_pos, Vec3::new(0, 89_443, -44_721));
    assert_ne!(rig.contact_rot, before_rot);
}

#[test]
fn glue_holds_across_many_ticks() {
    let center = Vec3::new(5_000, -2_000, 11_000);
    let radius: i128 = 100_000;
    let mut rig = Rig::new(&center, radius);
    let keys = DirInput { forward: true, back: false, left: true, right: false };
    for _ in 0..50 {
        rig.tick(keys, 20_000, 500, &center, radius);
        let d = rig.contact_pos.sub(&center);
        let dsq = d.len_sq();
        assert!(radius * radius - 8 * radius <= dsq);
        assert!(dsq <= radius * radius + 33 * radius);
    }
}

#[test]
fn no_input_tick_changes_nothing() {
    let center = Vec3::new(0, 0, 0);
    let radius: i128 = 100_000;
    let mut rig = Rig::new(&center, radius);
    let keys = DirInput { forward: false, back: false, left: false, right: false };
    let pos = rig.contact_pos;
    let rot = rig.contact_rot;
    rig.tick(keys, 50_000, 123_456, &center, radius);
    assert_eq!(rig.contact_pos, pos);
    assert_eq!(rig.contact_rot, rot);
}

#[test]
fn opposite_keys_cancel_exactly() {
    let center = Vec3::new(0, 0, 0);
    let radius: i128 = 100_000;
    let mut rig = Rig::new(&center, radius);
    let keys = DirInput { forward: true, back: true, left: false, right: false };
    let pos = rig.contact_pos;
    rig.tick(keys, 50_000, 1_000, &center, radius);
    assert_eq!(rig.contact_pos, pos);
}

#[test]
fn look_is_gated_by_cursor_lock() {
    let center = Vec3::new(0, 0, 0);
    let mut rig = Rig::new(&center, 100_000);
    let legs = rig.legs_rot;
    let torso = rig.torso_rot;
    rig.apply_look(LockMode::Free, 500, 300, 57);
    assert_eq!(rig.legs_rot, legs);
    assert_eq!(rig.torso_rot, torso);
    rig.apply_look(LockMode::Locked, 500, 0, 57);
    assert_ne!(rig.legs_rot, legs);
    assert_eq!(rig.torso_rot, torso);
    let legs2 = rig.legs_rot;
    rig.apply_look(LockMode::Locked, 0, 300, 57);
    assert_eq!(rig.legs_rot, legs2);
    assert_ne!(rig.torso_rot, torso);
}

#[test]
fn lock_mode_transitions() {
    assert_eq!(lock_update(LockMode::Free, true, false), LockMode::Locked);
    assert_eq!(lock_update(LockMode::Locked, false, true), LockMode::Free);
    assert_eq!(lock_update(LockMode::Free, false, false), LockMode::Free);
    assert_eq!(lock_update(LockMode::Locked, false, false), LockMode::Locked);
    // Both events in one frame: the release is applied second and wins.
    assert_eq!(lock_update(LockMode::Free, true, true), LockMode::Free);
}

#[test]
fn deltas_sum_negated() {
    let deltas: Vec<(i64, i64)> = vec![(3, -1), (2, 5), (-10, 0)];
    let (dx, dy) = sum_deltas(&deltas);
    assert_eq!(dx, 5);
    assert_eq!(dy, -4);
}

#[test]
fn coordinates_render_in_decimal() {
    let v = Vec3::new(0, 100_000, 250);
    assert_eq!(get_coord(&v), "0 100000 250");
}

#[test]
fn default_player_feel() {
    let feel = starwalk::rig::PlayerConfig::default();
    assert_eq!(feel.walk_speed, 10_000);
    assert_eq!(feel.look_sensitivity, 57);
}
