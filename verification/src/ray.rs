//! The renderer core: the scene model, ray-sphere intersection, the
//! lighting model with shadow tests, the bounded-depth reflection trace and
//! the per-frame pixel buffer.

use vstd::prelude::*;
use crate::camera::{spec_canvas_to_viewport, spec_rotate, Camera};
use crate::color::{channel_byte, spec_black, Color};
use crate::fixed::{FOUR_FX, SCALE, VMAX};
use crate::fixed::{fx_add, fx_div, fx_mul, fx_pow, fx_sub};
use crate::fixed::{fadd, fdiv, fmul, fpow, fsqrt, fsub};
use crate::vec3::{spec_dot, spec_mag, spec_reflect, spec_vadd, spec_vdiv, spec_vneg, spec_vscale,
    spec_vsub, Vec3};
use crate::vec3::{vadd, vdiv, vdot, vmag, vneg, vreflect, vscale, vsub};

verus! {

/// The self-intersection guard: shadow and reflection rays start this far
/// (one thousandth of a unit) from their surface point.
pub const EPSILON: i64 = 1_000;

/// A sphere with its material: base color, specular exponent (`-1` disables
/// the specular term) and reflectivity in `[0, 1]`.
#[derive(Clone, Copy, Debug, PartialEq, Eq, Structural)]
pub struct Sphere {
    pub center: Vec3,
    pub radius: i64,
    pub color: Color,
    pub specular: i64,
    pub reflective: i64,
}

impl Sphere {
    /// Geometry and material lie in their documented ranges.
    pub open spec fn wf(self) -> bool {
        &&& self.center.wf()
        &&& 0 < self.radius <= VMAX
        &&& 0 <= self.color.r <= SCALE
        &&& 0 <= self.color.g <= SCALE
        &&& 0 <= self.color.b <= SCALE
        &&& 0 <= self.color.a <= SCALE
        &&& self.specular == -1 || self.specular >= 0
        &&& 0 <= self.reflective <= SCALE
    }

    pub fn new(x: i64, y: i64, z: i64, radius: i64, color: Color, specular: i64, reflective: i64)
        -> (s: Sphere)
        ensures
            s == (Sphere { center: Vec3 { x, y, z }, radius, color, specular, reflective }),
    {
        let center = Vec3 { x, y, z };
        Sphere { center, radius, color, specular, reflective }
    }
}

/// The scene's spheres, in the order that breaks nearest-hit ties.
pub struct Objects {
    pub objects: Vec<Sphere>,
}

impl Objects {
    pub open spec fn wf(self) -> bool {
        forall|i: int| 0 <= i < self.objects@.len() ==> (#[trigger] self.objects@[i]).wf()
    }

    /// The default scene: three colored unit spheres and a large ground
    /// sphere.
    pub fn new() -> (o: Objects)
        ensures
            o.objects@.len() == 4,
            o.objects@[0] == (Sphere {
                center: Vec3 { x: 0, y: -1_000_000i64, z: 3_000_000 },
                radius: 1_000_000,
                color: Color { r: 1_000_000, g: 0, b: 0, a: 1_000_000 },
                specular: 500,
                reflective: 200_000,
            }),
            o.objects@[1] == (Sphere {
                center: Vec3 { x: 2_000_000, y: 0, z: 4_000_000 },
                radius: 1_000_000,
                color: Color { r: 0, g: 0, b: 1_000_000, a: 1_000_000 },
                specular: 500,
                reflective: 300_000,
            }),
            o.objects@[2] == (Sphere {
                center: Vec3 { x: -2_000_000i64, y: 0, z: 4_000_000 },
                radius: 1_000_000,
                color: Color { r: 0, g: 1_000_000, b: 0, a: 1_000_000 },
                specular: 10,
                reflective: 400_000,
            }),
            o.objects@[3] == (Sphere {
                center: Vec3 { x: 0, y: -5_001_000_000i64, z: 0 },
                radius: 5_000_000_000,
                color: Color { r: 1_000_000, g: 1_000_000, b: 0, a: 1_000_000 },
                specular: 1000,
                reflective: 500_000,
            }),
            o.wf(),
    {
        let mut objects: Vec<Sphere> = Vec::new();
        objects.push(Sphere::new(0, -1_000_000, 3_000_000, 1_000_000, Color::red(), 500, 200_000));
        objects.push(Sphere::new(2_000_000, 0, 4_000_000, 1_000_000, Color::blue(), 500, 300_000));
        objects.push(Sphere::new(-2_000_000, 0, 4_000_000, 1_000_000, Color::green(), 10, 400_000));
        objects.push(Sphere::new(0, -5_001_000_000, 0, 5_000_000_000, Color::yellow(), 1000, 500_000));
        Objects { objects }
    }
}

/// The kind of a light source.
#[derive(Clone, Copy, Debug, PartialEq, Eq, Structural)]
pub enum LightType {
    Ambient,
    Point,
    Directional,
}

/// A light: its kind, a fixed-point intensity, and a position (point
/// lights) or direction (directional lights).
#[derive(Clone, Copy, Debug, PartialEq, Eq, Structural)]
pub struct Light {
    pub ltype: LightType,
    pub intensity: i64,
    pub pos: Vec3,
    pub dir: Vec3,
}

impl Light {
    pub open spec fn wf(self) -> bool {
        &&& 0 <= self.intensity <= VMAX
        &&& self.pos.wf()
        &&& self.dir.wf()
    }

    pub fn new(ltype: LightType, intensity: i64, pos: Vec3, dir: Vec3) -> (l: Light)
        ensures
            l == (Light { ltype, intensity, pos, dir }),
    {
        Light { ltype, intensity, pos, dir }
    }
}

/// The scene's lights.
pub struct Effects {
    pub lights: Vec<Light>,
}

impl Effects {
    pub open spec fn wf(self) -> bool {
        forall|i: int| 0 <= i < self.lights@.len() ==> (#[trigger] self.lights@[i]).wf()
    }

    /// The default lights: one ambient, one point, one directional.
    pub fn new() -> (e: Effects)
        ensures
            e.lights@.len() == 3,
            e.lights@[0] == (Light {
                ltype: LightType::Ambient,
                intensity: 200_000,
                pos: Vec3 { x: 0, y: 0, z: 0 },
                dir: Vec3 { x: 0, y: 0, z: 0 },
            }),
            e.lights@[1] == (Light {
                ltype: LightType::Point,
                intensity: 600_000,
                pos: Vec3 { x: 2_000_000, y: 1_000_000, z: 0 },
                dir: Vec3 { x: 0, y: 0, z: 0 },
            }),
            e.lights@[2] == (Light {
                ltype: LightType::Directional,
                intensity: 200_000,
                pos: Vec3 { x: 0, y: 0, z: 0 },
                dir: Vec3 { x: 1_000_000, y: 4_000_000, z: 4_000_000 },
            }),
            e.wf(),
    {
        let mut lights: Vec<Light> = Vec::new();
        lights.push(Light::new(
            LightType::Ambient,
            200_000,
            Vec3 { x: 0, y: 0, z: 0 },
            Vec3 { x: 0, y: 0, z: 0 },
        ));
        lights.push(Light::new(
            LightType::Point,
            600_000,
            Vec3 { x: 2_000_000, y: 1_000_000, z: 0 },
            Vec3 { x: 0, y: 0, z: 0 },
        ));
        lights.push(Light::new(
            LightType::Directional,
            200_000,
            Vec3 { x: 0, y: 0, z: 0 },
            Vec3 { x: 1_000_000, y: 4_000_000, z: 4_000_000 },
        ));
        Effects { lights }
    }
}

/// Both roots of the ray-sphere quadratic `a*t^2 + b*t + c = 0` with
/// `a = d.d`, `b = 2*(o-c).d`, `c = (o-c).(o-c) - r*r`, as fixed-point hit
/// parameters; `(VMAX, VMAX)` when the discriminant is negative or the
/// direction is too short to carry a unit of the quadratic's leading
/// coefficient.
pub open spec fn spec_intersect(pos: Vec3, dir: Vec3, sphere: Sphere) -> (int, int) {
    let oc = spec_vsub(pos, sphere.center);
    let a = spec_dot(dir, dir);
    let b = fx_add(spec_dot(oc, dir), spec_dot(oc, dir));
    let c = fx_sub(spec_dot(oc, oc), fx_mul(sphere.radius as int, sphere.radius as int));
    if a == 0 {
        (VMAX as int, VMAX as int)
    } else {
        let disc = fx_sub(fx_mul(b, b), fx_mul(FOUR_FX as int, fx_mul(a, c)));
        if disc < 0 {
            (VMAX as int, VMAX as int)
        } else {
            let sqrt_disc = crate::fixed::fx_sqrt(disc);
            let two_a = fx_add(a, a);
            (fx_div(fx_add(-b, sqrt_disc), two_a), fx_div(fx_sub(-b, sqrt_disc), two_a))
        }
    }
}

/// Intersect a ray with one sphere.
pub fn intersect_ray_sphere(pos: Vec3, dir: Vec3, sphere: Sphere) -> (t: (i64, i64))
    requires
        pos.wf(),
        dir.wf(),
        sphere.center.wf(),
    ensures
        (t.0 as int, t.1 as int) == spec_intersect(pos, dir, sphere),
        -VMAX <= t.0 <= VMAX,
        -VMAX <= t.1 <= VMAX,
{
    let oc: Vec3 = vsub(pos, sphere.center);
    let a: i64 = vdot(dir, dir);
    proof {
        crate::vec3::lemma_dot_self_nonneg(dir);
    }
    let oc_dot_dir: i64 = vdot(oc, dir);
    let b: i64 = fadd(oc_dot_dir, oc_dot_dir);
    let c: i64 = fsub(vdot(oc, oc), fmul(sphere.radius, sphere.radius));
    if a == 0 {
        (VMAX, VMAX)
    } else {
        let disc: i64 = fsub(fmul(b, b), fmul(FOUR_FX, fmul(a, c)));
        if disc < 0 {
            (VMAX, VMAX)
        } else {
            let sqrt_disc: i64 = fsqrt(disc);
            let two_a: i64 = fadd(a, a);
            let neg_b: i64 = -b;
            (fdiv(fadd(neg_b, sqrt_disc), two_a), fdiv(fsub(neg_b, sqrt_disc), two_a))
        }
    }
}

/// One step of the nearest-hit fold: keep the best hit so far unless one of
/// the sphere's roots lies strictly inside `(t_min, t_max)` and strictly
/// below the best parameter.
pub open spec fn spec_closest_step(
    best: (Option<Sphere>, int),
    pos: Vec3,
    dir: Vec3,
    t_min: int,
    t_max: int,
    sphere: Sphere,
) -> (Option<Sphere>, int) {
    let t1 = spec_intersect(pos, dir, sphere).0;
    let t2 = spec_intersect(pos, dir, sphere).1;
    let b1 = if t_min < t1 && t1 < t_max && t1 < best.1 {
        (Some(sphere), t1)
    } else {
        best
    };
    if t_min < t2 && t2 < t_max && t2 < b1.1 {
        (Some(sphere), t2)
    } else {
        b1
    }
}

/// The nearest valid hit over a sequence of spheres: the smallest root
/// strictly inside `(t_min, t_max)`, earlier spheres winning ties; a miss
/// is `(None, VMAX)`.
pub open spec fn spec_closest(
    spheres: Seq<Sphere>,
    pos: Vec3,
    dir: Vec3,
    t_min: int,
    t_max: int,
) -> (Option<Sphere>, int)
    decreases spheres.len(),
{
    if spheres.len() == 0 {
        (None::<Sphere>, VMAX as int)
    } else {
        spec_closest_step(
            spec_closest(spheres.drop_last(), pos, dir, t_min, t_max),
            pos,
            dir,
            t_min,
            t_max,
            spheres.last(),
        )
    }
}

/// Find the nearest sphere hit by the ray inside `(t_min, t_max)`.
pub fn closest_intersection(objects: &Objects, pos: Vec3, dir: Vec3, t_min: i64, t_max: i64)
    -> (r: (Option<Sphere>, i64))
    requires
        objects.wf(),
        pos.wf(),
        dir.wf(),
    ensures
        (r.0, r.1 as int) == spec_closest(objects.objects@, pos, dir, t_min as int, t_max as int),
        -VMAX <= r.1 <= VMAX,
        r.0 matches Some(s) ==> exists|i: int|
            0 <= i < objects.objects@.len() && objects.objects@[i] == s,
{
    let mut closest_t: i64 = VMAX;
    let mut closest_sphere: Option<Sphere> = None;
    let n: usize = objects.objects.len();
    let mut i: usize = 0;
    while i < n
        invariant
            i <= n,
            n == objects.objects@.len(),
            objects.wf(),
            pos.wf(),
            dir.wf(),
            -VMAX <= closest_t <= VMAX,
            (closest_sphere, closest_t as int) == spec_closest(
                objects.objects@.take(i as int),
                pos,
                dir,
                t_min as int,
                t_max as int,
            ),
            closest_sphere matches Some(s) ==> exists|j: int|
                0 <= j < i && objects.objects@[j] == s,
        decreases n - i,
    {
        let sphere: Sphere = objects.objects[i];
        let t: (i64, i64) = intersect_ray_sphere(pos, dir, sphere);
        let ghost prev = (closest_sphere, closest_t as int);
        if t.0 > t_min && t.0 < t_max && t.0 < closest_t {
            closest_t = t.0;
            closest_sphere = Some(sphere);
        }
        if t.1 > t_min && t.1 < t_max && t.1 < closest_t {
            closest_t = t.1;
            closest_sphere = Some(sphere);
        }
        proof {
            let taken = objects.objects@.take(i + 1);
            assert(taken.drop_last() =~= objects.objects@.take(i as int));
            assert(taken.last() == objects.objects@[i as int]);
            assert((closest_sphere, closest_t as int) == spec_closest_step(
                prev,
                pos,
                dir,
                t_min as int,
                t_max as int,
                sphere,
            ));
        }
        i = i + 1;
    }
    proof {
        assert(objects.objects@.take(n as int) =~= objects.objects@);
    }
    (closest_sphere, closest_t)
}

/// `r` is a hit parameter of sphere `i` lying strictly inside the search
/// range.
pub open spec fn spec_valid_root(
    spheres: Seq<Sphere>,
    pos: Vec3,
    dir: Vec3,
    t_min: int,
    t_max: int,
    i: int,
    r: int,
) -> bool {
    &&& 0 <= i < spheres.len()
    &&& (r == spec_intersect(pos, dir, spheres[i]).0 || r == spec_intersect(pos, dir, spheres[i]).1)
    &&& t_min < r < t_max
}

/// Nearest-hit selection: a miss means no sphere has a valid hit parameter,
/// and a hit is a valid hit parameter of the returned sphere that is no
/// larger than any valid hit parameter of any sphere.
pub proof fn lemma_closest_intersection_minimal(
    spheres: Seq<Sphere>,
    pos: Vec3,
    dir: Vec3,
    t_min: int,
    t_max: int,
)
    requires
        t_max <= VMAX,
    ensures
        spec_closest(spheres, pos, dir, t_min, t_max).0 is None ==> spec_closest(
            spheres,
            pos,
            dir,
            t_min,
            t_max,
        ).1 == VMAX,
        spec_closest(spheres, pos, dir, t_min, t_max).0 is None ==> forall|i: int, r: int|
            !spec_valid_root(spheres, pos, dir, t_min, t_max, i, r),
        spec_closest(spheres, pos, dir, t_min, t_max).0 matches Some(s) ==> exists|i: int|
            spec_valid_root(
                spheres,
                pos,
                dir,
                t_min,
                t_max,
                i,
                spec_closest(spheres, pos, dir, t_min, t_max).1,
            ) && spheres[i] == s,
        forall|i: int, r: int|
            spec_valid_root(spheres, pos, dir, t_min, t_max, i, r) ==> spec_closest(
                spheres,
                pos,
                dir,
                t_min,
                t_max,
            ).1 <= r,
    decreases spheres.len(),
{
    if spheres.len() == 0 {
        assert forall|i: int, r: int| !spec_valid_root(spheres, pos, dir, t_min, t_max, i, r) by {}
    } else {
        let prefix = spheres.drop_last();
        lemma_closest_intersection_minimal(prefix, pos, dir, t_min, t_max);
        let prev = spec_closest(prefix, pos, dir, t_min, t_max);
        let cur = spec_closest(spheres, pos, dir, t_min, t_max);
        let last = spheres.last();
        let t1 = spec_intersect(pos, dir, last).0;
        let t2 = spec_intersect(pos, dir, last).1;
        assert(spheres[spheres.len() - 1] == last);
        assert forall|i: int, r: int|
            spec_valid_root(spheres, pos, dir, t_min, t_max, i, r) implies cur.1 <= r by {
            if i < spheres.len() - 1 {
                assert(prefix[i] == spheres[i]);
                assert(spec_valid_root(prefix, pos, dir, t_min, t_max, i, r));
                assert(prev.1 <= r);
            } else {
                assert(r == t1 || r == t2);
            }
        }
        if cur.0 is None {
            assert(cur == prev);
            assert forall|i: int, r: int|
                !spec_valid_root(spheres, pos, dir, t_min, t_max, i, r) by {
                if 0 <= i < spheres.len() - 1 {
                    assert(prefix[i] == spheres[i]);
                    assert(!spec_valid_root(prefix, pos, dir, t_min, t_max, i, r));
                }
            }
        } else {
            let s = cur.0.unwrap();
            if prev.0 is Some && cur == prev {
                let pi = choose|i: int|
                    spec_valid_root(prefix, pos, dir, t_min, t_max, i, prev.1) && prefix[i]
                        == prev.0.unwrap();
                assert(prefix[pi] == spheres[pi]);
                assert(spec_valid_root(spheres, pos, dir, t_min, t_max, pi, cur.1)
                    && spheres[pi] == s);
            } else {
                assert(spec_valid_root(spheres, pos, dir, t_min, t_max, spheres.len() - 1, cur.1)
                    && spheres[spheres.len() - 1] == s);
            }
        }
    }
}

/// Sphere `i` attains the winning hit parameter, and every earlier
/// sphere's valid hit parameters lie strictly beyond it.
pub open spec fn spec_first_hit_at(
    spheres: Seq<Sphere>,
    pos: Vec3,
    dir: Vec3,
    t_min: int,
    t_max: int,
    i: int,
) -> bool {
    let t = spec_closest(spheres, pos, dir, t_min, t_max).1;
    &&& spec_valid_root(spheres, pos, dir, t_min, t_max, i, t)
    &&& forall|j: int, r: int|
        j < i && spec_valid_root(spheres, pos, dir, t_min, t_max, j, r) ==> t < r
}

/// Ties go to insertion order: the sphere the nearest-hit query returns
/// stands at the first index that attains the winning hit parameter.
pub proof fn lemma_closest_intersection_first_wins(
    spheres: Seq<Sphere>,
    pos: Vec3,
    dir: Vec3,
    t_min: int,
    t_max: int,
)
    requires
        t_max <= VMAX,
    ensures
        spec_closest(spheres, pos, dir, t_min, t_max).0 matches Some(s) ==> exists|i: int|
            #[trigger] spec_first_hit_at(spheres, pos, dir, t_min, t_max, i) && spheres[i] == s,
    decreases spheres.len(),
{
    if spheres.len() == 0 {
    } else {
        let prefix = spheres.drop_last();
        lemma_closest_intersection_first_wins(prefix, pos, dir, t_min, t_max);
        lemma_closest_intersection_minimal(prefix, pos, dir, t_min, t_max);
        let prev = spec_closest(prefix, pos, dir, t_min, t_max);
        let cur = spec_closest(spheres, pos, dir, t_min, t_max);
        let last_i = spheres.len() - 1;
        assert(spheres[last_i] == spheres.last());
        if cur.0 is Some {
            let s = cur.0.unwrap();
            if cur == prev {
                let pi = choose|i: int|
                    #[trigger] spec_first_hit_at(prefix, pos, dir, t_min, t_max, i) && prefix[i]
                        == prev.0.unwrap();
                assert(prefix[pi] == spheres[pi]);
                assert forall|j: int, r: int|
                    j < pi && spec_valid_root(spheres, pos, dir, t_min, t_max, j, r)
                        implies cur.1 < r by {
                    assert(prefix[j] == spheres[j]);
                    assert(spec_valid_root(prefix, pos, dir, t_min, t_max, j, r));
                }
                assert(spec_first_hit_at(spheres, pos, dir, t_min, t_max, pi)
                    && spheres[pi] == s);
            } else {
                // The step took one of the last sphere's roots, which is
                // strictly below every valid hit parameter of the prefix.
                assert(cur.1 < prev.1);
                assert forall|j: int, r: int|
                    j < last_i && spec_valid_root(spheres, pos, dir, t_min, t_max, j, r)
                        implies cur.1 < r by {
                    assert(prefix[j] == spheres[j]);
                    assert(spec_valid_root(prefix, pos, dir, t_min, t_max, j, r));
                }
                assert(spec_first_hit_at(spheres, pos, dir, t_min, t_max, last_i)
                    && spheres[last_i] == s);
            }
        }
    }
}

/// The direction from a shaded point toward a light: point lights aim at
/// their position, directional lights use their fixed direction (ambient
/// lights have none; the zero vector stands in).
pub open spec fn spec_light_dir(light: Light, point: Vec3) -> Vec3 {
    if light.ltype == LightType::Point {
        spec_vsub(light.pos, point)
    } else {
        light.dir
    }
}

/// The shadow-test range bound: a point light can be occluded only up to
/// its own position (parameter one), a directional light without bound.
pub open spec fn spec_light_tmax(light: Light) -> int {
    if light.ltype == LightType::Point {
        SCALE as int
    } else {
        VMAX as int
    }
}

/// Whether some sphere occludes the light as seen from a shaded point.
pub open spec fn spec_occluded(spheres: Seq<Sphere>, light: Light, point: Vec3) -> bool {
    spec_closest(
        spheres,
        point,
        spec_light_dir(light, point),
        EPSILON as int,
        spec_light_tmax(light),
    ).0 is Some
}

/// The intensity accumulator after one light.  Ambient lights always add
/// their intensity.  Point and directional lights contribute nothing when
/// occluded; otherwise they add a diffuse term when the surface faces the
/// light and a specular term when the material is specular and the
/// reflected light faces the viewer.  Each quotient's denominator must
/// carry at least one fixed-point unit, or the term is dropped.
pub open spec fn spec_apply_light(
    spheres: Seq<Sphere>,
    light: Light,
    acc: int,
    p: Vec3,
    n: Vec3,
    v: Vec3,
    s: int,
) -> int {
    if light.ltype == LightType::Ambient {
        fx_add(acc, light.intensity as int)
    } else if spec_occluded(spheres, light, p) {
        acc
    } else {
        let ldir = spec_light_dir(light, p);
        let n_dot_l = spec_dot(n, ldir);
        let denom = fx_mul(spec_mag(n), spec_mag(ldir));
        let acc1 = if n_dot_l > 0 && denom > 0 {
            fx_add(acc, fx_div(fx_mul(light.intensity as int, n_dot_l), denom))
        } else {
            acc
        };
        if s != -1 {
            let refl = spec_reflect(n, ldir);
            let r_dot_v = spec_dot(refl, v);
            let denom2 = fx_mul(spec_mag(refl), spec_mag(v));
            if r_dot_v > 0 && denom2 > 0 {
                fx_add(
                    acc1,
                    fx_mul(light.intensity as int, fx_pow(fx_div(r_dot_v, denom2), s as nat)),
                )
            } else {
                acc1
            }
        } else {
            acc1
        }
    }
}

/// The total shading intensity at a point: the lights folded in order over
/// a zero accumulator.
pub open spec fn spec_lighting(
    spheres: Seq<Sphere>,
    lights: Seq<Light>,
    p: Vec3,
    n: Vec3,
    v: Vec3,
    s: int,
) -> int
    decreases lights.len(),
{
    if lights.len() == 0 {
        0
    } else {
        spec_apply_light(
            spheres,
            lights.last(),
            spec_lighting(spheres, lights.drop_last(), p, n, v, s),
            p,
            n,
            v,
            s,
        )
    }
}

impl Effects {
    /// The scalar light intensity at `point_pos` with surface normal
    /// `normal`, viewed from `point_dir`, for a material with specular
    /// exponent `specular`; shadows are tested against `objects`.
    pub fn compute_lighting(
        &self,
        objects: &Objects,
        point_pos: Vec3,
        normal: Vec3,
        point_dir: Vec3,
        specular: i64,
    ) -> (intensity: i64)
        requires
            objects.wf(),
            self.wf(),
            point_pos.wf(),
            normal.wf(),
            point_dir.wf(),
            specular == -1 || specular >= 0,
        ensures
            intensity as int == spec_lighting(
                objects.objects@,
                self.lights@,
                point_pos,
                normal,
                point_dir,
                specular as int,
            ),
            -VMAX <= intensity <= VMAX,
    {
        let mut acc: i64 = 0;
        let n: usize = self.lights.len();
        let mut i: usize = 0;
        while i < n
            invariant
                i <= n,
                n == self.lights@.len(),
                objects.wf(),
                self.wf(),
                point_pos.wf(),
                normal.wf(),
                point_dir.wf(),
                specular == -1 || specular >= 0,
                -VMAX <= acc <= VMAX,
                acc as int == spec_lighting(
                    objects.objects@,
                    self.lights@.take(i as int),
                    point_pos,
                    normal,
                    point_dir,
                    specular as int,
                ),
            decreases n - i,
        {
            let light: Light = self.lights[i];
            let ghost prev_acc = acc as int;
            if light.ltype == LightType::Ambient {
                acc = fadd(acc, light.intensity);
            } else {
                let light_dir: Vec3 = if light.ltype == LightType::Point {
                    vsub(light.pos, point_pos)
                } else {
                    light.dir
                };
                let t_max: i64 = if light.ltype == LightType::Point {
                    SCALE
                } else {
                    VMAX
                };
                let shadow: (Option<Sphere>, i64) = closest_intersection(
                    objects,
                    point_pos,
                    light_dir,
                    EPSILON,
                    t_max,
                );
                if shadow.0.is_none() {
                    let n_dot_l: i64 = vdot(normal, light_dir);
                    let denom: i64 = fmul(vmag(normal), vmag(light_dir));
                    if n_dot_l > 0 && denom > 0 {
                        acc = fadd(acc, fdiv(fmul(light.intensity, n_dot_l), denom));
                    }
                    if specular != -1 {
                        let refl: Vec3 = vreflect(normal, light_dir);
                        let r_dot_v: i64 = vdot(refl, point_dir);
                        let denom2: i64 = fmul(vmag(refl), vmag(point_dir));
                        if r_dot_v > 0 && denom2 > 0 {
                            acc = fadd(
                                acc,
                                fmul(light.intensity, fpow(fdiv(r_dot_v, denom2), specular as u64)),
                            );
                        }
                    }
                }
            }
            proof {
                let taken = self.lights@.take(i + 1);
                assert(taken.drop_last() =~= self.lights@.take(i as int));
                assert(taken.last() == self.lights@[i as int]);
                assert(acc as int == spec_apply_light(
                    objects.objects@,
                    light,
                    prev_acc,
                    point_pos,
                    normal,
                    point_dir,
                    specular as int,
                ));
            }
            i = i + 1;
        }
        proof {
            assert(self.lights@.take(n as int) =~= self.lights@);
        }
        acc
    }
}

/// A scene lit by a single ambient light yields that light's intensity at
/// every surface point, whatever the normal, view direction and material.
pub proof fn lemma_pure_ambient_lighting(
    spheres: Seq<Sphere>,
    light: Light,
    p: Vec3,
    n: Vec3,
    v: Vec3,
    s: int,
)
    requires
        light.ltype == LightType::Ambient,
        0 <= light.intensity <= VMAX,
    ensures
        spec_lighting(spheres, seq![light], p, n, v, s) == light.intensity,
{
    let lights = seq![light];
    assert(lights.len() == 1);
    assert(lights.last() == light);
    assert(lights.drop_last() =~= Seq::<Light>::empty());
    assert(spec_lighting(spheres, lights.drop_last(), p, n, v, s) == 0);
    assert(spec_lighting(spheres, lights, p, n, v, s) == spec_apply_light(
        spheres,
        light,
        0,
        p,
        n,
        v,
        s,
    ));
}

/// Shadow gating: an occluded point or directional light contributes
/// nothing to the accumulated intensity, while an ambient light's
/// contribution never depends on occlusion.
pub proof fn lemma_shadow_gating(
    spheres: Seq<Sphere>,
    light: Light,
    acc: int,
    p: Vec3,
    n: Vec3,
    v: Vec3,
    s: int,
)
    requires
        spec_occluded(spheres, light, p),
    ensures
        light.ltype != LightType::Ambient ==> spec_apply_light(spheres, light, acc, p, n, v, s)
            == acc,
        light.ltype == LightType::Ambient ==> spec_apply_light(spheres, light, acc, p, n, v, s)
            == fx_add(acc, light.intensity as int),
{
}

/// The local (unreflected) color of a hit: the sphere's base color scaled
/// by the shading intensity, at full opacity.
pub open spec fn spec_local_color(sphere: Sphere, intensity: int) -> Color {
    Color {
        r: fx_mul(sphere.color.r as int, intensity) as i64,
        g: fx_mul(sphere.color.g as int, intensity) as i64,
        b: fx_mul(sphere.color.b as int, intensity) as i64,
        a: SCALE,
    }
}

/// Two colors blended channel by channel: `x * (1 - w) + y * w` for the
/// fixed-point weight `w`, keeping the first color's opacity.
pub open spec fn spec_blend(x: Color, y: Color, w: int) -> Color {
    Color {
        r: fx_add(fx_mul(x.r as int, fx_sub(SCALE as int, w)), fx_mul(y.r as int, w)) as i64,
        g: fx_add(fx_mul(x.g as int, fx_sub(SCALE as int, w)), fx_mul(y.g as int, w)) as i64,
        b: fx_add(fx_mul(x.b as int, fx_sub(SCALE as int, w)), fx_mul(y.b as int, w)) as i64,
        a: x.a,
    }
}

/// A ray resolved to a color.  A miss is the black background.  A hit is
/// shaded at the hit point with the surface normal (a hit point that
/// coincides with the sphere's center has no normal and falls back to the
/// background), and, while the depth budget lasts and the material
/// reflects, blended with the color of the traced reflection ray, which
/// starts a self-intersection guard from the hit point and keeps the
/// caller's far bound.
pub open spec fn spec_trace(
    spheres: Seq<Sphere>,
    lights: Seq<Light>,
    pos: Vec3,
    dir: Vec3,
    t_min: int,
    t_max: int,
    depth: nat,
) -> Color
    decreases depth,
{
    let hit = spec_closest(spheres, pos, dir, t_min, t_max);
    if hit.0 is None {
        spec_black()
    } else {
        let sphere = hit.0.unwrap();
        let p = spec_vadd(pos, spec_vscale(dir, hit.1));
        let m = spec_mag(spec_vsub(p, sphere.center));
        if m == 0 {
            spec_black()
        } else {
            let n = spec_vdiv(spec_vsub(p, sphere.center), m);
            let intensity = spec_lighting(
                spheres,
                lights,
                p,
                n,
                spec_vneg(dir),
                sphere.specular as int,
            );
            let local = spec_local_color(sphere, intensity);
            if depth == 0 || sphere.reflective <= 0 {
                local
            } else {
                let rdir = spec_reflect(n, spec_vneg(dir));
                let rc = spec_trace(
                    spheres,
                    lights,
                    p,
                    rdir,
                    EPSILON as int,
                    t_max,
                    (depth - 1) as nat,
                );
                spec_blend(local, rc, sphere.reflective as int)
            }
        }
    }
}

/// A working ray: the direction being traced and the color it resolved to.
pub struct Ray {
    pub dir: Vec3,
    pub color: Color,
}

impl Ray {
    pub fn new() -> (r: Ray)
        ensures
            r.dir == (Vec3 { x: 0, y: 0, z: 0 }),
            r.color == spec_black(),
    {
        Ray { dir: Vec3 { x: 0, y: 0, z: 0 }, color: Color::black() }
    }

    /// The reflection of `ray_dir` about `normal`.
    pub fn reflect_ray(&self, ray_dir: Vec3, normal: Vec3) -> (r: Vec3)
        requires
            ray_dir.wf(),
            normal.wf(),
        ensures
            r == spec_reflect(normal, ray_dir),
            r.wf(),
    {
        vreflect(normal, ray_dir)
    }

    /// Resolve a ray to a color, recursing into reflections at most
    /// `recursion_depth` times.
    pub fn trace_ray(
        &self,
        objects: &Objects,
        effects: &Effects,
        point_pos: Vec3,
        ray_dir: Vec3,
        t_min: i64,
        t_max: i64,
        recursion_depth: u32,
    ) -> (c: Color)
        requires
            objects.wf(),
            effects.wf(),
            point_pos.wf(),
            ray_dir.wf(),
        ensures
            c == spec_trace(
                objects.objects@,
                effects.lights@,
                point_pos,
                ray_dir,
                t_min as int,
                t_max as int,
                recursion_depth as nat,
            ),
        decreases recursion_depth,
    {
        let closest: (Option<Sphere>, i64) = closest_intersection(
            objects,
            point_pos,
            ray_dir,
            t_min,
            t_max,
        );
        match closest.0 {
            None => Color::black(),
            Some(sphere) => {
                proof {
                    assert(sphere.wf());
                }
                let p: Vec3 = vadd(point_pos, vscale(ray_dir, closest.1));
                let n0: Vec3 = vsub(p, sphere.center);
                let m: i64 = vmag(n0);
                if m == 0 {
                    Color::black()
                } else {
                    let normal: Vec3 = vdiv(n0, m);
                    let view: Vec3 = vneg(ray_dir);
                    let intensity: i64 = effects.compute_lighting(
                        objects,
                        p,
                        normal,
                        view,
                        sphere.specular,
                    );
                    let local = Color {
                        r: fmul(sphere.color.r, intensity),
                        g: fmul(sphere.color.g, intensity),
                        b: fmul(sphere.color.b, intensity),
                        a: SCALE,
                    };
                    if recursion_depth == 0 || sphere.reflective <= 0 {
                        local
                    } else {
                        let reflected: Vec3 = self.reflect_ray(view, normal);
                        let rc: Color = self.trace_ray(
                            objects,
                            effects,
                            p,
                            reflected,
                            EPSILON,
                            t_max,
                            recursion_depth - 1,
                        );
                        Color {
                            r: fadd(fmul(local.r, fsub(SCALE, sphere.reflective)),
                                fmul(rc.r, sphere.reflective)),
                            g: fadd(fmul(local.g, fsub(SCALE, sphere.reflective)),
                                fmul(rc.g, sphere.reflective)),
                            b: fadd(fmul(local.b, fsub(SCALE, sphere.reflective)),
                                fmul(rc.b, sphere.reflective)),
                            a: local.a,
                        }
                    }
                }
            },
        }
    }
}

/// A ray that misses every sphere in its range resolves to the opaque black
/// background, at any depth.
pub proof fn lemma_miss_returns_background(
    spheres: Seq<Sphere>,
    lights: Seq<Light>,
    pos: Vec3,
    dir: Vec3,
    t_min: int,
    t_max: int,
    depth: nat,
)
    requires
        spec_closest(spheres, pos, dir, t_min, t_max).0 is None,
    ensures
        spec_trace(spheres, lights, pos, dir, t_min, t_max, depth) == spec_black(),
{
}

/// Depth termination: with an exhausted depth budget a hit resolves to the
/// local color alone, with no reflection blended in, however reflective the
/// sphere is.
pub proof fn lemma_depth_zero_returns_local(
    spheres: Seq<Sphere>,
    lights: Seq<Light>,
    pos: Vec3,
    dir: Vec3,
    t_min: int,
    t_max: int,
)
    requires
        spec_closest(spheres, pos, dir, t_min, t_max).0 is Some,
        ({
            let hit = spec_closest(spheres, pos, dir, t_min, t_max);
            spec_mag(
                spec_vsub(
                    spec_vadd(pos, spec_vscale(dir, hit.1)),
                    hit.0.unwrap().center,
                ),
            ) != 0
        }),
    ensures
        ({
            let hit = spec_closest(spheres, pos, dir, t_min, t_max);
            let sphere = hit.0.unwrap();
            let p = spec_vadd(pos, spec_vscale(dir, hit.1));
            let n = spec_vdiv(spec_vsub(p, sphere.center), spec_mag(spec_vsub(p, sphere.center)));
            spec_trace(spheres, lights, pos, dir, t_min, t_max, 0) == spec_local_color(
                sphere,
                spec_lighting(spheres, lights, p, n, spec_vneg(dir), sphere.specular as int),
            )
        }),
{
}

/// The color of one canvas pixel: the pixel's viewport point, rotated by
/// the camera's accumulated yaw, traced from the camera's position with a
/// reflection depth of three.
pub open spec fn spec_pixel_color(
    cam: Camera,
    spheres: Seq<Sphere>,
    lights: Seq<Light>,
    x: int,
    y: int,
    w: int,
    h: int,
) -> Color {
    let d = spec_rotate(
        spec_canvas_to_viewport(cam, x, y, w, h),
        cam.yaw_cos as int,
        cam.yaw_sin as int,
    );
    spec_trace(spheres, lights, cam.pos, d, EPSILON as int, VMAX as int, 3)
}

/// The four bytes of pixel `(x, y)` in a `w`-by-`h` frame buffer hold that
/// pixel's color as `[R, G, B, 255]`.
pub open spec fn spec_pixel_ok(
    buf: Seq<u8>,
    cam: Camera,
    spheres: Seq<Sphere>,
    lights: Seq<Light>,
    x: int,
    y: int,
    w: int,
    h: int,
) -> bool {
    let c = spec_pixel_color(cam, spheres, lights, x, y, w, h);
    &&& buf[(y * w + x) * 4] == channel_byte(c.r as int)
    &&& buf[(y * w + x) * 4 + 1] == channel_byte(c.g as int)
    &&& buf[(y * w + x) * 4 + 2] == channel_byte(c.b as int)
    &&& buf[(y * w + x) * 4 + 3] == 255
}

/// A rendered frame: a flat byte buffer of `[R, G, B, A]` pixels, row by
/// row from the top.
pub struct Rays {
    pub buffer: Vec<u8>,
}

impl Rays {
    /// Render one frame of the scene as seen by the camera.  The canvas
    /// may take any size within the viewport mapping's coordinate box (a
    /// million pixels on a side).
    #[verifier::rlimit(50)]
    pub fn new(
        camera: &Camera,
        objects: &Objects,
        effects: &Effects,
        canvas_w: isize,
        canvas_h: isize,
    ) -> (rays: Rays)
        requires
            camera.wf(),
            objects.wf(),
            effects.wf(),
            0 < canvas_w <= 1_000_000,
            0 < canvas_h <= 1_000_000,
        ensures
            rays.buffer@.len() == canvas_w * canvas_h * 4,
            forall|x: int, y: int| 0 <= x < canvas_w && 0 <= y < canvas_h ==> spec_pixel_ok(
                rays.buffer@,
                *camera,
                objects.objects@,
                effects.lights@,
                x,
                y,
                canvas_w as int,
                canvas_h as int,
            ),
    {
        let w: usize = canvas_w as usize;
        let h: usize = canvas_h as usize;
        let ray: Ray = Ray::new();
        let mut buffer: Vec<u8> = Vec::new();
        let mut y: usize = 0;
        while y < h
            invariant
                camera.wf(),
                objects.wf(),
                effects.wf(),
                w == canvas_w,
                h == canvas_h,
                0 < w <= 1_000_000,
                0 < h <= 1_000_000,
                y <= h,
                buffer@.len() == y * w * 4,
                forall|px: int, py: int| 0 <= px < w && 0 <= py < y ==> spec_pixel_ok(
                    buffer@,
                    *camera,
                    objects.objects@,
                    effects.lights@,
                    px,
                    py,
                    w as int,
                    h as int,
                ),
            decreases h - y,
        {
            let mut x: usize = 0;
            while x < w
                invariant
                    camera.wf(),
                    objects.wf(),
                    effects.wf(),
                    w == canvas_w,
                    h == canvas_h,
                    0 < w <= 1_000_000,
                    0 < h <= 1_000_000,
                    y < h,
                    x <= w,
                    buffer@.len() == (y * w + x) * 4,
                    forall|px: int, py: int| 0 <= px < w && 0 <= py < y ==> spec_pixel_ok(
                        buffer@,
                        *camera,
                        objects.objects@,
                        effects.lights@,
                        px,
                        py,
                        w as int,
                        h as int,
                    ),
                    forall|px: int| 0 <= px < x ==> spec_pixel_ok(
                        buffer@,
                        *camera,
                        objects.objects@,
                        effects.lights@,
                        px,
                        y as int,
                        w as int,
                        h as int,
                    ),
                decreases w - x,
            {
                let ghost old_buf = buffer@;
                let mut dir: Vec3 = camera.canvas_to_viewport(
                    x as i64,
                    y as i64,
                    canvas_w as i64,
                    canvas_h as i64,
                );
                proof {
                    assert(dir.wf());
                }
                camera.rotate_viewport(&mut dir);
                let color: Color = ray.trace_ray(
                    objects,
                    effects,
                    camera.pos,
                    dir,
                    EPSILON,
                    VMAX,
                    3,
                );
                let rgb: (u8, u8, u8) = color.to_rgb();
                buffer.push(rgb.0);
                buffer.push(rgb.1);
                buffer.push(rgb.2);
                buffer.push(255);
                proof {
                    let wi = w as int;
                    let hi = h as int;
                    let xi = x as int;
                    let yi = y as int;
                    assert forall|px: int, py: int|
                        0 <= px < wi && (0 <= py < yi || (py == yi && 0 <= px <= xi))
                            implies spec_pixel_ok(
                        buffer@,
                        *camera,
                        objects.objects@,
                        effects.lights@,
                        px,
                        py,
                        wi,
                        hi,
                    ) by {
                        if py == yi && px == xi {
                            assert(buffer@[(yi * wi + xi) * 4] == rgb.0);
                            assert(buffer@[(yi * wi + xi) * 4 + 1] == rgb.1);
                            assert(buffer@[(yi * wi + xi) * 4 + 2] == rgb.2);
                            assert(buffer@[(yi * wi + xi) * 4 + 3] == 255);
                        } else {
                            assert(spec_pixel_ok(
                                old_buf,
                                *camera,
                                objects.objects@,
                                effects.lights@,
                                px,
                                py,
                                wi,
                                hi,
                            ));
                            assert((py * wi + px) * 4 + 3 < (yi * wi + xi) * 4) by (nonlinear_arith)
                                requires
                                    0 <= px < wi,
                                    0 <= py,
                                    0 <= xi,
                                    py < yi || (py == yi && px < xi),
                            ;
                        }
                    }
                    assert((yi * wi + xi) * 4 + 4 == (yi * wi + (xi + 1)) * 4);
                }
                x = x + 1;
            }
            proof {
                assert((y * w + w) * 4 == (y + 1) * w * 4) by (nonlinear_arith);
            }
            y = y + 1;
        }
        proof {
            assert(h * w * 4 == canvas_w * canvas_h * 4) by (nonlinear_arith)
                requires
                    w == canvas_w,
                    h == canvas_h,
            ;
        }
        Rays { buffer }
    }
}

/// End to end, for every even canvas size: with the camera at its initial
/// pose, a scene of one pure red matte unit sphere three units ahead, and a
/// single ambient light of unit intensity, the center pixel renders the
/// sphere's base color unscaled — pure red at full opacity.
pub proof fn lemma_center_pixel_end_to_end(w: int, h: int, sphere: Sphere, light: Light)
    requires
        w > 0,
        h > 0,
        w % 2 == 0,
        h % 2 == 0,
        sphere == (Sphere {
            center: Vec3 { x: 0, y: 0, z: 3_000_000 },
            radius: 1_000_000,
            color: Color { r: 1_000_000, g: 0, b: 0, a: 1_000_000 },
            specular: -1i64,
            reflective: 0,
        }),
        light == (Light {
            ltype: LightType::Ambient,
            intensity: 1_000_000,
            pos: Vec3 { x: 0, y: 0, z: 0 },
            dir: Vec3 { x: 0, y: 0, z: 0 },
        }),
    ensures
        spec_pixel_color(Camera::spec_new(), seq![sphere], seq![light], w / 2, h / 2, w, h)
            == (Color { r: SCALE, g: 0, b: 0, a: SCALE }),
{
    let cam = Camera::spec_new();
    crate::camera::lemma_center_pixel_maps_to_origin(cam, w, h);
    let v = spec_canvas_to_viewport(cam, w / 2, h / 2, w, h);
    assert(v == (Vec3 { x: 0, y: 0, z: SCALE }));
    let d = spec_rotate(v, cam.yaw_cos as int, cam.yaw_sin as int);
    // The divisions the fixed-point steps take, on the concrete values of
    // this scene (the solver folds literal products, but needs each
    // literal quotient spelled out).
    assert(SCALE as int == 1_000_000int);
    assert(FOUR_FX as int == 4_000_000int);
    assert(EPSILON as int == 1_000int);
    assert(VMAX as int == 1_000_000_000_000_000_000int);
    assert((1_000_000int * 1_000_000int == 1_000_000_000_000int)
        && ((-3_000_000int) * (-3_000_000int) == 9_000_000_000_000int)
        && ((-3_000_000int) * 1_000_000int == -3_000_000_000_000int)
        && ((-6_000_000int) * (-6_000_000int) == 36_000_000_000_000int)
        && (1_000_000int * 8_000_000int == 8_000_000_000_000int)
        && (4_000_000int * 8_000_000int == 32_000_000_000_000int)
        && (1_000_000int * 2_000_000int == 2_000_000_000_000int)
        && ((-1_000_000int) * 1_000_000int == -1_000_000_000_000int)
        && ((-1_000_000int) * (-1_000_000int) == 1_000_000_000_000int)
        && (8_000_000int * 1_000_000int == 8_000_000_000_000int)
        && (4_000_000int * 1_000_000int == 4_000_000_000_000int)) by (nonlinear_arith);
    assert((0int * 1_000_000int) / 1_000_000int == 0int);
    assert((1_000_000int * 1_000_000int) / 1_000_000int == 1_000_000int);
    assert((-3_000_000_000_000int) / 1_000_000int == -3_000_000int);
    assert(9_000_000_000_000int / 1_000_000int == 9_000_000int);
    assert(36_000_000_000_000int / 1_000_000int == 36_000_000int);
    assert(8_000_000_000_000int / 1_000_000int == 8_000_000int);
    assert(32_000_000_000_000int / 1_000_000int == 32_000_000int);
    assert(8_000_000_000_000int / 2_000_000int == 4_000_000int);
    assert(4_000_000_000_000int / 2_000_000int == 2_000_000int);
    assert(2_000_000_000_000int / 1_000_000int == 2_000_000int);
    assert((-1_000_000_000_000int) / 1_000_000int == -1_000_000int);
    assert(d == (Vec3 { x: 0, y: 0, z: SCALE }));
    let spheres = seq![sphere];
    let lights = seq![light];
    // The quadratic on the center ray, step by step.
    let oc = spec_vsub(cam.pos, sphere.center);
    assert(oc == (Vec3 { x: 0, y: 0, z: -3_000_000i64 }));
    assert(spec_dot(d, d) == 1_000_000);
    assert(spec_dot(oc, d) == -3_000_000);
    assert(spec_dot(oc, oc) == 9_000_000);
    crate::fixed::lemma_sqrt_floor_unique(4_000_000_000_000, 2_000_000);
    assert(spec_intersect(cam.pos, d, sphere) == (4_000_000int, 2_000_000int));
    assert(spheres.drop_last() =~= Seq::<Sphere>::empty());
    assert(spheres.last() == sphere);
    assert(spec_closest(Seq::<Sphere>::empty(), cam.pos, d, EPSILON as int, VMAX as int)
        == (None::<Sphere>, VMAX as int));
    let hit = spec_closest(spheres, cam.pos, d, EPSILON as int, VMAX as int);
    assert(hit == (Some(sphere), 2_000_000int));
    // The hit point, its normal, and the ambient-only shading.
    let p = spec_vadd(cam.pos, spec_vscale(d, 2_000_000));
    assert(p == (Vec3 { x: 0, y: 0, z: 2_000_000 }));
    let n0 = spec_vsub(p, sphere.center);
    assert(n0 == (Vec3 { x: 0, y: 0, z: -1_000_000i64 }));
    assert(spec_dot(n0, n0) == 1_000_000);
    crate::fixed::lemma_sqrt_floor_unique(1_000_000_000_000, 1_000_000);
    assert(spec_mag(n0) == 1_000_000);
    let n = spec_vdiv(n0, 1_000_000);
    assert(n == (Vec3 { x: 0, y: 0, z: -1_000_000i64 }));
    lemma_pure_ambient_lighting(spheres, light, p, n, spec_vneg(d), -1);
    assert(spec_lighting(spheres, lights, p, n, spec_vneg(d), -1) == 1_000_000);
    assert(spec_local_color(sphere, 1_000_000) == (Color { r: SCALE, g: 0, b: 0, a: SCALE }));
}

} // verus!
