//! Scenario tests of the intersector, shader, tracer and frame renderer.

use raytracing_basic::color::Color;
use raytracing_basic::fixed::{SCALE, VMAX};
use raytracing_basic::ray::{
    closest_intersection, intersect_ray_sphere, Effects, Light, LightType, Objects, Ray, Rays,
    Sphere, EPSILON,
};
use raytracing_basic::vec3::{vdot, Vec3};

fn red_sphere_at(z: i64, reflective: i64) -> Sphere {
    Sphere::new(0, 0, z, SCALE, Color::red(), -1, reflective)
}

#[test]
fn intersect_unit_sphere_head_on_gives_both_roots() {
    // Sphere at (0,0,3), radius 1, ray (0,0,1) from the origin: the
    // quadratic has roots 4 and 2, in that order.
    let sphere = red_sphere_at(3 * SCALE, 0);
    let (t1, t2) = intersect_ray_sphere(
        Vec3::new(0, 0, 0),
        Vec3::new(0, 0, SCALE),
        sphere,
    );
    assert_eq!(t1, 4 * SCALE);
    assert_eq!(t2, 2 * SCALE);
}

#[test]
fn intersect_miss_returns_sentinel_pair() {
    let sphere = red_sphere_at(3 * SCALE, 0);
    let (t1, t2) = intersect_ray_sphere(
        Vec3::new(0, 0, 0),
        Vec3::new(0, SCALE, 0),
        sphere,
    );
    assert_eq!(t1, VMAX);
    assert_eq!(t2, VMAX);
}

#[test]
fn nearest_hit_selects_the_closer_of_two_overlapping_spheres() {
    // Spheres at (0,0,3) and (0,0,5) along (0,0,1): the first sphere's
    // near root t == 2 must win.
    let objects = Objects {
        objects: vec![red_sphere_at(3 * SCALE, 0), red_sphere_at(5 * SCALE, 0)],
    };
    let (hit, t) = closest_intersection(
        &objects,
        Vec3::new(0, 0, 0),
        Vec3::new(0, 0, SCALE),
        EPSILON,
        VMAX,
    );
    assert_eq!(hit, Some(objects.objects[0]));
    assert_eq!(t, 2 * SCALE);
}

#[test]
fn nearest_hit_is_order_independent_here() {
    let objects = Objects {
        objects: vec![red_sphere_at(5 * SCALE, 0), red_sphere_at(3 * SCALE, 0)],
    };
    let (hit, t) = closest_intersection(
        &objects,
        Vec3::new(0, 0, 0),
        Vec3::new(0, 0, SCALE),
        EPSILON,
        VMAX,
    );
    assert_eq!(hit, Some(objects.objects[1]));
    assert_eq!(t, 2 * SCALE);
}

#[test]
fn nearest_hit_tie_goes_to_the_first_sphere() {
    // Two identical spheres in the same place: insertion order decides.
    let first = Sphere::new(0, 0, 3 * SCALE, SCALE, Color::red(), -1, 0);
    let second = Sphere::new(0, 0, 3 * SCALE, SCALE, Color::blue(), -1, 0);
    let objects = Objects { objects: vec![first, second] };
    let (hit, t) = closest_intersection(
        &objects,
        Vec3::new(0, 0, 0),
        Vec3::new(0, 0, SCALE),
        EPSILON,
        VMAX,
    );
    assert_eq!(t, 2 * SCALE);
    assert_eq!(hit.unwrap().color, Color::red());
}

#[test]
fn nearest_hit_miss_returns_none_with_sentinel() {
    let objects = Objects { objects: vec![red_sphere_at(3 * SCALE, 0)] };
    let (hit, t) = closest_intersection(
        &objects,
        Vec3::new(0, 0, 0),
        Vec3::new(0, SCALE, 0),
        EPSILON,
        VMAX,
    );
    assert_eq!(hit, None);
    assert_eq!(t, VMAX);
}

#[test]
fn pure_ambient_lighting_is_the_ambient_intensity() {
    // A lone ambient light of intensity k shades every point at exactly k,
    // whatever the normal and view direction.
    let effects = Effects {
        lights: vec![Light::new(
            LightType::Ambient,
            123_456,
            Vec3::new(0, 0, 0),
            Vec3::new(0, 0, 0),
        )],
    };
    let objects = Objects { objects: vec![] };
    let i1 = effects.compute_lighting(
        &objects,
        Vec3::new(0, 0, 0),
        Vec3::new(0, 0, SCALE),
        Vec3::new(0, 0, -SCALE),
        -1,
    );
    let i2 = effects.compute_lighting(
        &objects,
        Vec3::new(SCALE, 2 * SCALE, 0),
        Vec3::new(SCALE, 0, 0),
        Vec3::new(0, SCALE, 0),
        500,
    );
    assert_eq!(i1, 123_456);
    assert_eq!(i2, 123_456);
}

#[test]
fn shadow_gating_drops_an_occluded_point_light() {
    // A point light straight ahead of the shaded point, with and without
    // an opaque sphere in between: the blocker removes exactly the point
    // light's diffuse share, the ambient share stays.
    let light_pos = Vec3::new(0, 0, 4 * SCALE);
    let lights = Effects {
        lights: vec![
            Light::new(LightType::Ambient, 100_000, Vec3::new(0, 0, 0), Vec3::new(0, 0, 0)),
            Light::new(LightType::Point, 500_000, light_pos, Vec3::new(0, 0, 0)),
        ],
    };
    let blocker = red_sphere_at(2 * SCALE, 0);
    let shaded_point = Vec3::new(0, 0, 0);
    let normal = Vec3::new(0, 0, SCALE);
    let view = Vec3::new(0, 0, -SCALE);

    let open_scene = Objects { objects: vec![] };
    let unblocked = lights.compute_lighting(&open_scene, shaded_point, normal, view, -1);
    assert_eq!(unblocked, 600_000);

    let blocked_scene = Objects { objects: vec![blocker] };
    let blocked = lights.compute_lighting(&blocked_scene, shaded_point, normal, view, -1);
    assert_eq!(blocked, 100_000);
}

#[test]
fn trace_miss_returns_opaque_black() {
    // The default scene holds nothing straight above the origin.
    let objects = Objects::new();
    let effects = Effects::new();
    let ray = Ray::new();
    let c = ray.trace_ray(
        &objects,
        &effects,
        Vec3::new(0, 0, 0),
        Vec3::new(0, SCALE, 0),
        EPSILON,
        VMAX,
        3,
    );
    assert_eq!(c, Color::black());
}

#[test]
fn trace_depth_zero_returns_the_local_color_of_a_mirror() {
    // A fully reflective sphere under a unit ambient light: with no depth
    // budget the trace returns the plain local color and never recurses.
    let objects = Objects { objects: vec![red_sphere_at(3 * SCALE, SCALE)] };
    let effects = Effects {
        lights: vec![Light::new(
            LightType::Ambient,
            SCALE,
            Vec3::new(0, 0, 0),
            Vec3::new(0, 0, 0),
        )],
    };
    let ray = Ray::new();
    let c = ray.trace_ray(
        &objects,
        &effects,
        Vec3::new(0, 0, 0),
        Vec3::new(0, 0, SCALE),
        EPSILON,
        VMAX,
        0,
    );
    assert_eq!(c, Color::red());
}

#[test]
fn trace_with_depth_blends_the_mirror_toward_its_reflection() {
    // The same mirror sphere with a depth budget: its reflection ray
    // escapes the one-sphere scene, so the blend replaces the local color
    // with the black background.
    let objects = Objects { objects: vec![red_sphere_at(3 * SCALE, SCALE)] };
    let effects = Effects {
        lights: vec![Light::new(
            LightType::Ambient,
            SCALE,
            Vec3::new(0, 0, 0),
            Vec3::new(0, 0, 0),
        )],
    };
    let ray = Ray::new();
    let c = ray.trace_ray(
        &objects,
        &effects,
        Vec3::new(0, 0, 0),
        Vec3::new(0, 0, SCALE),
        EPSILON,
        VMAX,
        3,
    );
    assert_eq!(c, Color::black());
}

#[test]
fn reflection_respects_the_callers_range() {
    // A mirror sphere ahead and a green sphere behind the camera.  The
    // reflection ray reaches the green sphere at parameter 6, so a trace
    // bounded at 4 shows background in the mirror while an unbounded
    // trace shows green.
    let mirror = red_sphere_at(3 * SCALE, SCALE);
    let behind = Sphere::new(0, 0, -5 * SCALE, SCALE, Color::green(), -1, 0);
    let objects = Objects { objects: vec![mirror, behind] };
    let effects = Effects {
        lights: vec![Light::new(
            LightType::Ambient,
            SCALE,
            Vec3::new(0, 0, 0),
            Vec3::new(0, 0, 0),
        )],
    };
    let ray = Ray::new();
    let bounded = ray.trace_ray(
        &objects,
        &effects,
        Vec3::new(0, 0, 0),
        Vec3::new(0, 0, SCALE),
        EPSILON,
        4 * SCALE,
        1,
    );
    assert_eq!(bounded, Color::black());
    let unbounded = ray.trace_ray(
        &objects,
        &effects,
        Vec3::new(0, 0, 0),
        Vec3::new(0, 0, SCALE),
        EPSILON,
        VMAX,
        1,
    );
    assert_eq!(unbounded, Color::green());
}

#[test]
fn trace_blends_a_half_mirror_exactly() {
    // A half-reflective red sphere under a unit ambient light: the
    // reflection ray escapes, so the blend halves each local channel
    // toward black.
    let objects = Objects { objects: vec![red_sphere_at(3 * SCALE, SCALE / 2)] };
    let effects = Effects {
        lights: vec![Light::new(
            LightType::Ambient,
            SCALE,
            Vec3::new(0, 0, 0),
            Vec3::new(0, 0, 0),
        )],
    };
    let ray = Ray::new();
    let c = ray.trace_ray(
        &objects,
        &effects,
        Vec3::new(0, 0, 0),
        Vec3::new(0, 0, SCALE),
        EPSILON,
        VMAX,
        1,
    );
    assert_eq!(c, Color { r: SCALE / 2, g: 0, b: 0, a: SCALE });
    assert_eq!(c.to_rgb(), (127, 0, 0));
}

#[test]
fn reflect_ray_mirrors_about_the_normal() {
    let ray = Ray::new();
    // A vector along the normal reflects onto itself.
    let r = ray.reflect_ray(Vec3::new(0, 0, SCALE), Vec3::new(0, 0, SCALE));
    assert_eq!(r, Vec3::new(0, 0, SCALE));
    // A 45-degree vector about the vertical normal keeps its height and
    // mirrors its horizontal component.
    let r2 = ray.reflect_ray(Vec3::new(SCALE, SCALE, 0), Vec3::new(0, SCALE, 0));
    assert_eq!(r2, Vec3::new(-SCALE, SCALE, 0));
}

#[test]
fn end_to_end_center_pixel_is_red_and_corner_is_black() {
    // Camera at the origin facing (0,0,1); a single red sphere at (0,0,3)
    // under a unit ambient light.  On a 10x10 canvas the center pixel hits
    // the sphere head on at full ambient intensity; the corner ray misses.
    let camera = raytracing_basic::camera::Camera::new();
    let objects = Objects { objects: vec![red_sphere_at(3 * SCALE, 0)] };
    let effects = Effects {
        lights: vec![Light::new(
            LightType::Ambient,
            SCALE,
            Vec3::new(0, 0, 0),
            Vec3::new(0, 0, 0),
        )],
    };
    let frame = Rays::new(&camera, &objects, &effects, 10, 10);
    assert_eq!(frame.buffer.len(), 10 * 10 * 4);
    let center = (5 * 10 + 5) * 4;
    assert_eq!(&frame.buffer[center..center + 4], &[255, 0, 0, 255]);
    assert_eq!(&frame.buffer[0..4], &[0, 0, 0, 255]);
}

#[test]
fn default_scene_and_lights_match_their_constants() {
    let objects = Objects::new();
    assert_eq!(objects.objects.len(), 4);
    assert_eq!(objects.objects[0].center, Vec3::new(0, -SCALE, 3 * SCALE));
    assert_eq!(objects.objects[0].color, Color::red());
    assert_eq!(objects.objects[3].radius, 5000 * SCALE);
    assert_eq!(objects.objects[3].reflective, 500_000);
    let effects = Effects::new();
    assert_eq!(effects.lights.len(), 3);
    assert_eq!(effects.lights[0].ltype, LightType::Ambient);
    assert_eq!(effects.lights[1].ltype, LightType::Point);
    assert_eq!(effects.lights[1].intensity, 600_000);
    assert_eq!(effects.lights[2].ltype, LightType::Directional);
    assert_eq!(effects.lights[2].dir, Vec3::new(SCALE, 4 * SCALE, 4 * SCALE));
}

#[test]
fn default_scene_ground_shadows_under_specular_sun() {
    // Sanity run of the full default scene: the frame is well formed and
    // every pixel is opaque.
    let camera = raytracing_basic::camera::Camera::new();
    let objects = Objects::new();
    let effects = Effects::new();
    let frame = Rays::new(&camera, &objects, &effects, 8, 6);
    assert_eq!(frame.buffer.len(), 8 * 6 * 4);
    for p in 0..(8 * 6) {
        assert_eq!(frame.buffer[p * 4 + 3], 255);
    }
}

#[test]
fn color_bytes_saturate_outside_the_unit_range() {
    let hot = Color { r: 2 * SCALE, g: -SCALE, b: SCALE / 2, a: SCALE };
    assert_eq!(hot.to_rgb(), (255, 0, 127));
    assert_eq!(Color::black().to_rgb(), (0, 0, 0));
    assert_eq!(Color::yellow().to_rgb(), (255, 255, 0));
}

#[test]
fn dot_product_matches_hand_values() {
    let a = Vec3::new(SCALE, 2 * SCALE, 3 * SCALE);
    let b = Vec3::new(4 * SCALE, -5 * SCALE, 6 * SCALE);
    // 4 - 10 + 18 == 12
    assert_eq!(vdot(a, b), 12 * SCALE);
}
