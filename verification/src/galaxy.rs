//! The deterministic galaxy generator and the world bodies.
//!
//! `Galaxy::new` consumes a seed string (the galaxy's name) and a
//! configuration and produces an ordered list of stars: a fixed anchor
//! star first, then one star per entry of a fixed name table, each placed
//! from the seeded random stream with a single-pass minimum-separation
//! correction. The whole result is pinned to the spec-level
//! `spec_stars`, a pure function of the seed and the configuration, so
//! reproducibility holds by contract.

use vstd::prelude::*;
use vstd::string::StringExecFns;

use crate::math::{spec_tdiv, tdiv, UNIT};
use crate::quat::{
    spec_q_mul, spec_q_renorm, spec_q_rot_x, spec_q_rot_y, spec_q_rot_z, spec_q_rotate, Quat,
};
use crate::rng::{rng_from_seed, rng_next, rng_pos, rng_seed, seed_draw, StarRng};
use crate::vec3::{
    spec_add, spec_bounded, spec_dist_sq, spec_len_sq, spec_scale_to_len, spec_sub, Vec3, V3,
};

verus! {

/// One astronomical unit, in milli-units.
pub const AU: i128 = 400_000_000;

/// The planet's radius, in milli-units.
pub const EARTH_RADIUS: i128 = 100_000;

/// The anchor star's radius, in milli-units.
pub const SOL_RADIUS: i128 = 10_000_000;

/// The moon's radius, in milli-units.
pub const MOON_RADIUS: i128 = 25_000;

/// The moon's distance from the planet, in milli-units.
pub const MOON_DISTANCE: i128 = 1_000_000;

/// A color, with channels scaled by one thousand (so 1000 is full).
#[derive(Clone, Copy, PartialEq, Eq, Structural, Debug)]
pub struct Rgb {
    pub r: u32,
    pub g: u32,
    pub b: u32,
}

pub open spec fn spec_red_star() -> Rgb {
    Rgb { r: 996, g: 494, b: 137 }
}

pub open spec fn spec_yellow_star() -> Rgb {
    Rgb { r: 996, g: 855, b: 714 }
}

pub open spec fn spec_blue_star() -> Rgb {
    Rgb { r: 604, g: 686, b: 996 }
}

/// How a body is to be shaded: emissive bodies glow with their color,
/// lit bodies reflect light.
#[derive(Clone, Copy, PartialEq, Eq, Structural, Debug)]
pub enum Material {
    Emissive { color: Rgb },
    Lit { color: Rgb },
}

/// A visual body: the planet, the moon.
#[derive(Clone, Copy, PartialEq, Eq, Structural, Debug)]
pub struct Body {
    pub radius: i128,
    pub translation: Vec3,
    pub material: Material,
}

impl Body {
    /// A body at the origin; emissive bodies glow, others are lit.
    pub fn new(radius: i128, color: Rgb, emissive: bool) -> (r: Body)
        ensures
            r.radius == radius,
            r.translation@ == (V3 { x: 0, y: 0, z: 0 }),
            r.material == if emissive {
                Material::Emissive { color }
            } else {
                Material::Lit { color }
            },
    {
        let material = if emissive {
            Material::Emissive { color }
        } else {
            Material::Lit { color }
        };
        Body { radius, translation: Vec3::new(0, 0, 0), material }
    }

    /// Move the body `distance` along the unit axis `axis` (scaled by
    /// `UNIT`) away from `from`.
    pub fn with_distance_from(self, distance: i128, axis: Vec3, from: Vec3) -> (r: Body)
        requires
            spec_bounded(axis@, 2 * UNIT as int),
            0 <= distance <= 1_000_000_000_000,
            spec_bounded(from@, 1_000_000_000_000),
        ensures
            r.radius == self.radius,
            r.material == self.material,
            r.translation@ == spec_add(from@, spec_axis_offset(axis@, distance as int)),
    {
        proof {
            crate::math::lemma_abs_mul_le(axis@.x, distance as int, 2 * UNIT as int,
                1_000_000_000_000);
            crate::math::lemma_abs_mul_le(axis@.y, distance as int, 2 * UNIT as int,
                1_000_000_000_000);
            crate::math::lemma_abs_mul_le(axis@.z, distance as int, 2 * UNIT as int,
                1_000_000_000_000);
        }
        let translation = Vec3::new(
            from.x + tdiv(axis.x * distance, UNIT),
            from.y + tdiv(axis.y * distance, UNIT),
            from.z + tdiv(axis.z * distance, UNIT),
        );
        Body { radius: self.radius, translation, material: self.material }
    }
}

/// `axis * distance / UNIT`, coordinate by coordinate.
pub open spec fn spec_axis_offset(axis: V3, distance: int) -> V3 {
    V3 {
        x: spec_tdiv(axis.x * distance, UNIT as int),
        y: spec_tdiv(axis.y * distance, UNIT as int),
        z: spec_tdiv(axis.z * distance, UNIT as int),
    }
}

/// The world configuration: generator tuning plus the two bodies the
/// locomotion system reads. All lengths are milli-units.
pub struct Config {
    pub clear_color: Rgb,
    pub galaxy_size: i128,
    pub star_radius_min: i128,
    pub star_radius_max: i128,
    pub star_separation: i128,
    pub palette: Vec<Rgb>,
    pub planet: Body,
    pub moon: Body,
}

/// The generator-relevant part of a configuration, as plain values.
pub ghost struct GenCfg {
    pub galaxy_size: int,
    pub rmin: int,
    pub rmax: int,
    pub sep: int,
    pub palette: Seq<Rgb>,
}

impl Config {
    /// Validity: invalid configurations are a caller error, rejected at
    /// startup (`check`) rather than tolerated at generation time.
    pub open spec fn wf(&self) -> bool {
        &&& 0 < self.galaxy_size <= 100_000_000_000
        &&& 0 < self.star_radius_min < self.star_radius_max <= 1_000_000_000_000
        &&& 0 < self.star_separation <= 10_000_000_000
        &&& 1 <= self.palette@.len() <= 1000
    }

    /// Startup validation: exactly the well-formedness the generator
    /// requires, for a host to check before generating.
    pub fn check(&self) -> (r: bool)
        ensures
            r == self.wf(),
    {
        0 < self.galaxy_size && self.galaxy_size <= 100_000_000_000 && 0 < self.star_radius_min
            && self.star_radius_min < self.star_radius_max && self.star_radius_max
            <= 1_000_000_000_000 && 0 < self.star_separation && self.star_separation
            <= 10_000_000_000 && 1 <= self.palette.len() && self.palette.len() <= 1000
    }

    pub open spec fn gen_view(&self) -> GenCfg {
        GenCfg {
            galaxy_size: self.galaxy_size as int,
            rmin: self.star_radius_min as int,
            rmax: self.star_radius_max as int,
            sep: self.star_separation as int,
            palette: self.palette@,
        }
    }
}

impl Default for Config {
    /// The default world: a grass planet, a dust moon one step along z,
    /// and a galaxy of two hundred astronomical units.
    fn default() -> (r: Config)
        ensures
            r.clear_color == (Rgb { r: 100, g: 100, b: 100 }),
            r.galaxy_size == 200 * AU,
            r.star_radius_min == spec_tdiv(SOL_RADIUS as int, 10),
            r.star_radius_max == 10 * SOL_RADIUS,
            r.star_separation == 20 * AU,
            r.palette@ =~= seq![spec_red_star(), spec_yellow_star(), spec_blue_star()],
            r.planet.radius == EARTH_RADIUS,
            r.planet.translation@ == (V3 { x: 0, y: 0, z: 0 }),
            r.planet.material == (Material::Lit { color: Rgb { r: 604, g: 804, b: 196 } }),
            r.moon.radius == MOON_RADIUS,
            r.moon.translation@ == (V3 { x: 0, y: 0, z: MOON_DISTANCE as int }),
            r.moon.material == (Material::Lit { color: Rgb { r: 753, g: 753, b: 753 } }),
            r.wf(),
    {
        let planet = Body::new(EARTH_RADIUS, Rgb { r: 604, g: 804, b: 196 }, false);
        let moon = Body::new(MOON_RADIUS, Rgb { r: 753, g: 753, b: 753 }, false)
            .with_distance_from(MOON_DISTANCE, Vec3::new(0, 0, UNIT), planet.translation);
        let mut palette: Vec<Rgb> = Vec::new();
        palette.push(Rgb { r: 996, g: 494, b: 137 });
        palette.push(Rgb { r: 996, g: 855, b: 714 });
        palette.push(Rgb { r: 604, g: 686, b: 996 });
        Config {
            clear_color: Rgb { r: 100, g: 100, b: 100 },
            galaxy_size: 200 * AU,
            star_radius_min: SOL_RADIUS / 10,
            star_radius_max: 10 * SOL_RADIUS,
            star_separation: 20 * AU,
            palette,
            planet,
            moon,
        }
    }
}

/// The mathematical model of a star record.
pub ghost struct StarV {
    pub name: Seq<char>,
    pub translation: V3,
    pub radius: int,
    pub color: Rgb,
}

/// A star record: identity is the index in generation order.
pub struct Star {
    pub name: String,
    pub translation: Vec3,
    pub radius: i128,
    pub color: Rgb,
}

impl View for Star {
    type V = StarV;

    open spec fn view(&self) -> StarV {
        StarV {
            name: self.name@,
            translation: self.translation@,
            radius: self.radius as int,
            color: self.color,
        }
    }
}

/// The fixed name table: an external static resource, one star per name.
pub open spec fn spec_star_names() -> Seq<Seq<char>> {
    seq![
        "Sirius"@,
        "Canopus"@,
        "Arcturus"@,
        "Vega"@,
        "Capella"@,
        "Rigel"@,
        "Procyon"@,
        "Achernar"@,
        "Betelgeuse"@,
        "Hadar"@,
        "Altair"@,
        "Acrux"@,
        "Aldebaran"@,
        "Antares"@,
        "Spica"@,
        "Pollux"@,
        "Fomalhaut"@,
        "Deneb"@,
        "Mimosa"@,
        "Regulus"@,
        "Adhara"@,
        "Shaula"@,
        "Castor"@,
    ]
}

/// The fixed name table, as executable values.
pub fn star_names() -> (r: Vec<&'static str>)
    ensures
        r@.len() == spec_star_names().len(),
        forall|i: int| 0 <= i < r@.len() ==> (#[trigger] r@[i])@ == spec_star_names()[i],
{
    let mut v: Vec<&'static str> = Vec::new();
    v.push("Sirius");
    v.push("Canopus");
    v.push("Arcturus");
    v.push("Vega");
    v.push("Capella");
    v.push("Rigel");
    v.push("Procyon");
    v.push("Achernar");
    v.push("Betelgeuse");
    v.push("Hadar");
    v.push("Altair");
    v.push("Acrux");
    v.push("Aldebaran");
    v.push("Antares");
    v.push("Spica");
    v.push("Pollux");
    v.push("Fomalhaut");
    v.push("Deneb");
    v.push("Mimosa");
    v.push("Regulus");
    v.push("Adhara");
    v.push("Shaula");
    v.push("Castor");
    v
}

/// The fixed anchor star, present whatever the seed.
pub open spec fn spec_anchor() -> StarV {
    StarV {
        name: "Sol"@,
        translation: V3 { x: 0, y: AU as int, z: 0 },
        radius: SOL_RADIUS as int,
        color: spec_yellow_star(),
    }
}

/// One separation correction: a candidate too close to an already placed
/// star is pushed directly away from it by exactly the minimum
/// separation.
pub open spec fn spec_correct_one(p: V3, o: V3, sep: int) -> V3 {
    if spec_dist_sq(p, o) < sep * sep {
        spec_add(p, spec_scale_to_len(spec_sub(p, o), sep))
    } else {
        p
    }
}

/// The single-pass correction: against each already placed star in
/// placement order, once, never re-checked (a documented approximation,
/// not a global solver).
pub open spec fn spec_correct_from(prev: Seq<StarV>, j: int, p: V3, sep: int) -> V3
    decreases prev.len() - j,
{
    if j < 0 || j >= prev.len() {
        p
    } else {
        spec_correct_from(prev, j + 1, spec_correct_one(p, prev[j].translation, sep), sep)
    }
}

/// The star placed for name-table entry `k`, given the stars placed so
/// far: three full-turn angles, a radial distance, the correction, a
/// radius and a palette color, all drawn from the seed's stream at
/// positions `6k .. 6k+5`.
pub open spec fn spec_star_at(seed: Seq<char>, c: GenCfg, prev: Seq<StarV>, k: nat) -> StarV {
    let ax = (seed_draw(seed, 6 * k) % 360_000u64) as int;
    let ay = (seed_draw(seed, 6 * k + 1) % 360_000u64) as int;
    let az = (seed_draw(seed, 6 * k + 2) % 360_000u64) as int;
    let q = spec_q_renorm(
        spec_q_mul(spec_q_mul(spec_q_rot_x(ax), spec_q_rot_y(ay)), spec_q_rot_z(az)),
    );
    let dist = (seed_draw(seed, 6 * k + 3) % (c.galaxy_size as u64)) as int;
    let pos0 = spec_q_rotate(q, V3 { x: 0, y: dist, z: 0 });
    let pos = spec_correct_from(prev, 0, pos0, c.sep);
    let radius = c.rmin + (seed_draw(seed, 6 * k + 4) % ((c.rmax - c.rmin) as u64)) as int;
    let color = c.palette[(seed_draw(seed, 6 * k + 5) % (c.palette.len() as u64)) as int];
    StarV { name: spec_star_names()[k as int], translation: pos, radius, color }
}

/// The first `1 + n` stars: the anchor, then one star per name-table
/// entry, in table order. A pure function of the seed and the
/// configuration: determinism of the generator is this function's
/// existence.
pub open spec fn spec_stars(seed: Seq<char>, c: GenCfg, n: nat) -> Seq<StarV>
    decreases n,
{
    if n == 0 {
        seq![spec_anchor()]
    } else {
        let prev = spec_stars(seed, c, (n - 1) as nat);
        prev.push(spec_star_at(seed, c, prev, (n - 1) as nat))
    }
}

/// A galaxy: the seed string it was generated from, and its stars.
pub struct Galaxy {
    pub name: String,
    pub stars: Vec<Star>,
}

impl Galaxy {
    /// Generate the galaxy that `name` seeds. The star list is pinned to
    /// `spec_stars`, a pure function of `(name, config)`: two calls with
    /// equal arguments yield equal galaxies.
    pub fn new(name: String, config: &Config) -> (r: Galaxy)
        requires
            config.wf(),
        ensures
            r.name@ == name@,
            r.stars@.map_values(|s: Star| s@) == spec_stars(
                name@,
                config.gen_view(),
                spec_star_names().len(),
            ),
            r.stars@.len() == spec_star_names().len() + 1,
    {
        let ghost seedv = name@;
        let ghost c = config.gen_view();
        let mut rng = rng_from_seed(name.as_str());
        let mut stars: Vec<Star> = Vec::new();
        stars.push(
            Star {
                name: String::from_str("Sol"),
                translation: Vec3::new(0, AU, 0),
                radius: SOL_RADIUS,
                color: Rgb { r: 996, g: 855, b: 714 },
            },
        );
        proof {
            assert(stars@.map_values(|s: Star| s@) =~= spec_stars(seedv, c, 0));
        }
        let names = star_names();
        let mut k: usize = 0;
        while k < names.len()
            invariant
                config.wf(),
                c == config.gen_view(),
                names@.len() == spec_star_names().len(),
                forall|i: int|
                    0 <= i < names@.len() ==> (#[trigger] names@[i])@ == spec_star_names()[i],
                k <= names@.len(),
                rng_seed(rng) == seedv,
                rng_pos(rng) == 6 * k,
                stars@.len() == k + 1,
                stars@.map_values(|s: Star| s@) == spec_stars(seedv, c, k as nat),
                forall|i: int|
                    0 <= i < stars@.len() ==> spec_bounded(
                        (#[trigger] stars@[i])@.translation,
                        100_000_000_000_000,
                    ),
            decreases names@.len() - k,
        {
            let ghost prevv = stars@.map_values(|s: Star| s@);
            let d0 = rng_next(&mut rng);
            let d1 = rng_next(&mut rng);
            let d2 = rng_next(&mut rng);
            let ax = (d0 % 360_000u64) as i128;
            let ay = (d1 % 360_000u64) as i128;
            let az = (d2 % 360_000u64) as i128;
            let q = Quat::rot_x(ax).mul(&Quat::rot_y(ay)).mul(&Quat::rot_z(az)).renorm();
            let d3 = rng_next(&mut rng);
            let dist = (d3 % (config.galaxy_size as u64)) as i128;
            let pos0 = q.rotate(&Vec3::new(0, dist, 0), Ghost(c.galaxy_size));
            let mut cur = pos0;
            let mut j: usize = 0;
            while j < stars.len()
                invariant
                    config.wf(),
                    c == config.gen_view(),
                    j <= stars@.len(),
                    stars@.len() == k + 1,
                    k + 1 <= 24,
                    prevv == stars@.map_values(|s: Star| s@),
                    forall|i: int|
                        0 <= i < stars@.len() ==> spec_bounded(
                            (#[trigger] stars@[i])@.translation,
                            100_000_000_000_000,
                        ),
                    spec_bounded(cur@, 23_000_000_000_000 + j * 10_000_000_000),
                    spec_correct_from(prevv, j as int, cur@, c.sep) == spec_correct_from(
                        prevv,
                        0,
                        pos0@,
                        c.sep,
                    ),
                decreases stars@.len() - j,
            {
                let other = &stars[j].translation;
                proof {
                    assert(prevv[j as int] == stars@[j as int]@);
                }
                let dsq = cur.dist_sq(other);
                proof {
                    crate::math::lemma_abs_mul_le(c.sep, c.sep, 10_000_000_000, 10_000_000_000);
                }
                if dsq < config.star_separation * config.star_separation {
                    let push = cur.sub(other).scale_to_len(config.star_separation);
                    cur = cur.add(&push);
                }
                j = j + 1;
            }
            let d4 = rng_next(&mut rng);
            let radius = config.star_radius_min + (d4 % ((config.star_radius_max
                - config.star_radius_min) as u64)) as i128;
            let d5 = rng_next(&mut rng);
            let idx = (d5 % (config.palette.len() as u64)) as usize;
            let color = config.palette[idx];
            let star = Star {
                name: String::from_str(names[k]),
                translation: cur,
                radius,
                color,
            };
            stars.push(star);
            proof {
                let kk = k as nat;
                assert(spec_stars(seedv, c, (kk + 1) as nat) == spec_stars(seedv, c, kk).push(
                    spec_star_at(seedv, c, spec_stars(seedv, c, kk), kk),
                ));
                assert(stars@.map_values(|s: Star| s@) =~= prevv.push(
                    spec_star_at(seedv, c, prevv, kk),
                ));
            }
            k = k + 1;
        }
        Galaxy { name, stars }
    }
}

/// Pulling an integer multiple of the divisor out of a truncating
/// division: `a (l + s) / l == a + (a s) / l`.
proof fn lemma_tdiv_shift(a: int, s: int, l: int)
    requires
        l >= 1,
        s >= 0,
    ensures
        spec_tdiv(a * (l + s), l) == a + spec_tdiv(a * s, l),
{
    if a >= 0 {
        assert(a * (l + s) == a * s + a * l && a * s >= 0 && a * l == a * l) by (nonlinear_arith)
            requires
                a >= 0,
                s >= 0,
                l >= 1,
        ;
        assert((a * s) / l + a == (a * s + a * l) / l) by {
            vstd::arithmetic::div_mod::lemma_hoist_over_denominator(a * s, a, l as nat);
        }
    } else {
        let b = -a;
        assert(b * (l + s) == b * s + b * l && b * s >= 0 && b * (l + s) == -(a * (l + s)) && b
            * s == -(a * s)) by (nonlinear_arith)
            requires
                b == -a,
                a < 0,
                s >= 0,
                l >= 1,
        ;
        assert((b * s) / l + b == (b * s + b * l) / l) by {
            vstd::arithmetic::div_mod::lemma_hoist_over_denominator(b * s, b, l as nat);
        }
        assert((b * s) / l >= 0) by {
            vstd::arithmetic::div_mod::lemma_div_is_ordered(0, b * s, l);
        }
        assert(b * (l + s) >= 0);
    }
}

/// Best-effort minimum separation: when the correction is applied to a
/// candidate strictly closer than `sep` to an already placed star (and
/// not exactly on it), the corrected position is at squared distance at
/// least `sep^2 - 6 sep - 7` from that star — the minimum separation up
/// to the rounding of the integer push.
pub proof fn lemma_separation_push(p: V3, o: V3, sep: int)
    requires
        sep >= 1,
        spec_dist_sq(p, o) > 0,
        spec_dist_sq(p, o) < sep * sep,
    ensures
        spec_dist_sq(spec_correct_one(p, o, sep), o) >= sep * sep - 6 * sep - 7,
{
    let v = spec_sub(p, o);
    let ls = spec_len_sq(v);
    let l = crate::math::spec_isqrt(ls as nat) as int;
    crate::math::lemma_isqrt_bounds(ls as nat);
    assert(l >= 1) by (nonlinear_arith)
        requires
            l >= 0,
            ls >= 1,
            ls < (l + 1) * (l + 1),
    ;
    let push = spec_scale_to_len(v, sep);
    let q = spec_correct_one(p, o, sep);
    assert(q == spec_add(p, push));
    let w = spec_sub(q, o);
    lemma_tdiv_shift(v.x, sep, l);
    lemma_tdiv_shift(v.y, sep, l);
    lemma_tdiv_shift(v.z, sep, l);
    assert(w == spec_scale_to_len(v, l + sep));
    crate::vec3::lemma_stl_len_lower(v, l + sep);
    assert(spec_len_sq(w) >= (l + sep) * (l + sep) - 8 * (l + sep));
    if sep >= 7 {
        assert((l + sep) * (l + sep) - 8 * (l + sep) >= sep * sep - 6 * sep - 7) by (
        nonlinear_arith)
            requires
                l >= 1,
                sep >= 7,
        ;
    } else {
        crate::vec3::lemma_len_sq_nonneg(w);
        assert(sep * sep - 6 * sep - 7 <= 0) by (nonlinear_arith)
            requires
                1 <= sep <= 6,
        ;
    }
}

/// The anchor invariant: whatever the seed, the configuration and the
/// table length, the first star of the generated sequence is the fixed
/// anchor.
pub proof fn lemma_anchor_first(seed: Seq<char>, c: GenCfg, n: nat)
    ensures
        spec_stars(seed, c, n).len() == n + 1,
        spec_stars(seed, c, n)[0] == spec_anchor(),
    decreases n,
{
    if n > 0 {
        lemma_anchor_first(seed, c, (n - 1) as nat);
    }
}

} // verus!
