use boxtrace::castray::blend;
use boxtrace::castray::cast_ray;
use boxtrace::castray::light_contribution;
use boxtrace::castray::nearest_hit;
use boxtrace::castray::shade;
use boxtrace::castray::skybox;
use boxtrace::castray::MAX_DEPTH;
use boxtrace::color::Color;
use boxtrace::cube::Cube;
use boxtrace::fixed::FX_MAX;
use boxtrace::fixed::SCALE;
use boxtrace::light::Light;
use boxtrace::material::Material;
use boxtrace::texture::Texture;
use boxtrace::vector::Vec3;
use std::sync::Arc;

fn sky() -> Color {
    Color::new(253, 255, 146)
}

#[test]
fn skybox_is_pale_yellow() {
    assert_eq!(skybox(), sky());
    assert_eq!(skybox().to_hex(), 0xFDFF92);
}

fn white() -> Color {
    Color::new(255, 255, 255)
}

fn cube(min: (i64, i64, i64), max: (i64, i64, i64), material: Material) -> Cube {
    Cube {
        min: Vec3::new(min.0, min.1, min.2),
        max: Vec3::new(max.0, max.1, max.2),
        material,
        has_shadow: true,
        is_transparent: false,
    }
}

fn unit_cube(material: Material) -> Cube {
    cube((-500_000, -500_000, -500_000), (500_000, 500_000, 500_000), material)
}

fn matte() -> Material {
    Material::new(Color::new(200, 100, 50), 10, [SCALE, 0, 0, 0], SCALE)
}

fn shiny() -> Material {
    Material::new(Color::new(200, 100, 50), 10, [600_000, 400_000, 0, 0], SCALE)
}

fn overhead() -> Light {
    Light::new(Vec3::new(0, 5_000_000, 0), white(), SCALE)
}

fn slanted() -> Light {
    Light::new(Vec3::new(3_000_000, 4_500_000, 0), white(), SCALE)
}

fn eye() -> Vec3 {
    Vec3::new(0, 3_000_000, 0)
}

fn down() -> Vec3 {
    Vec3::new(0, -SCALE, 0)
}

#[test]
fn ray_beyond_the_depth_limit_is_sky() {
    let objects = vec![unit_cube(matte())];
    let lights = vec![overhead()];
    assert_eq!(MAX_DEPTH, 3);
    assert_eq!(cast_ray(&eye(), &down(), &objects, &lights, 4), sky());
    assert_eq!(cast_ray(&eye(), &down(), &objects, &lights, 100), sky());
    assert_eq!(cast_ray(&eye(), &down(), &objects, &lights, u32::MAX), sky());
}

#[test]
fn ray_at_the_depth_limit_is_still_traced() {
    let objects = vec![unit_cube(matte())];
    let lights = vec![overhead()];
    assert_eq!(cast_ray(&eye(), &down(), &objects, &lights, 3), Color::new(200, 100, 50));
}

#[test]
fn ray_that_meets_nothing_is_sky() {
    let objects = vec![unit_cube(matte())];
    let lights = vec![overhead()];
    assert_eq!(cast_ray(&eye(), &Vec3::new(0, SCALE, 0), &objects, &lights, 0), sky());
    let nothing: Vec<Cube> = Vec::new();
    assert_eq!(cast_ray(&eye(), &down(), &nothing, &lights, 0), sky());
}

#[test]
fn top_face_under_an_overhead_light_shows_its_diffuse_color() {
    let objects = vec![unit_cube(matte())];
    let lights = vec![overhead()];
    assert_eq!(cast_ray(&eye(), &down(), &objects, &lights, 0), Color::new(200, 100, 50));
}

#[test]
fn diffuse_color_is_dimmed_by_the_angle_to_the_light() {
    let objects = vec![unit_cube(matte())];
    let lights = vec![slanted()];
    assert_eq!(cast_ray(&eye(), &down(), &objects, &lights, 0), Color::new(160, 80, 40));
}

#[test]
fn light_strength_and_color_scale_the_result() {
    let objects = vec![unit_cube(matte())];
    let dim = Light::new(Vec3::new(3_000_000, 4_500_000, 0), Color::new(255, 128, 0), 500_000);
    assert_eq!(cast_ray(&eye(), &down(), &objects, &[dim], 0), Color::new(80, 40, 20));
}

#[test]
fn light_behind_the_surface_adds_nothing() {
    let objects = vec![unit_cube(matte())];
    let below = Light::new(Vec3::new(0, -5_000_000, 0), white(), SCALE);
    assert_eq!(cast_ray(&eye(), &down(), &objects, &[below], 0), Color::new(0, 0, 0));
}

#[test]
fn lights_add_up_and_saturate() {
    let objects = vec![unit_cube(matte())];
    assert_eq!(
        cast_ray(&eye(), &down(), &objects, &[slanted(), slanted()], 0),
        Color::new(255, 160, 80)
    );
    assert_eq!(
        cast_ray(&eye(), &down(), &objects, &[overhead(), slanted()], 0),
        Color::new(255, 180, 90)
    );
}

#[test]
fn scene_without_lights_is_black_where_a_box_is_hit() {
    let objects = vec![unit_cube(matte())];
    let none: Vec<Light> = Vec::new();
    assert_eq!(cast_ray(&eye(), &down(), &objects, &none, 0), Color::new(0, 0, 0));
}

#[test]
fn highlight_is_added_to_the_diffuse_color() {
    let objects = vec![unit_cube(shiny())];
    assert_eq!(cast_ray(&eye(), &down(), &objects, &[overhead()], 0), Color::new(222, 162, 132));
    assert_eq!(cast_ray(&eye(), &down(), &objects, &[slanted()], 0), Color::new(106, 58, 34));
}

#[test]
fn highlight_is_full_along_the_mirrored_light() {
    let objects = vec![unit_cube(shiny())];
    let from = Vec3::new(-3_000_000, 4_500_000, 0);
    let toward = Vec3::new(0, 500_000, 0).sub(&from).normalize();
    assert_eq!(toward, Vec3::new(600_000, -800_000, 0));
    assert_eq!(cast_ray(&from, &toward, &objects, &[slanted()], 0), Color::new(198, 150, 126));
}

#[test]
fn highlight_with_exponent_zero_is_full_everywhere() {
    let flat = Material::new(Color::new(200, 100, 50), 0, [600_000, 400_000, 0, 0], SCALE);
    let objects = vec![unit_cube(flat)];
    assert_eq!(cast_ray(&eye(), &down(), &objects, &[slanted()], 0), Color::new(198, 150, 126));
}

#[test]
fn light_contribution_and_shade_agree_with_cast_ray() {
    let objects = vec![unit_cube(shiny())];
    let hit = nearest_hit(&objects, &eye(), &down());
    let material = hit.material.unwrap();
    let dim = Light::new(Vec3::new(3_000_000, 4_500_000, 0), Color::new(255, 128, 0), 500_000);
    assert_eq!(light_contribution(&hit, material, &eye(), &slanted(), &objects), Color::new(106, 58, 34));
    assert_eq!(light_contribution(&hit, material, &eye(), &dim, &objects), Color::new(53, 26, 12));
    assert_eq!(shade(&hit, material, &eye(), &[slanted(), dim], &objects), Color::new(159, 84, 46));
    assert_eq!(shade(&hit, material, &eye(), &[], &objects), Color::new(0, 0, 0));
}

#[test]
fn mirror_shows_half_the_sky() {
    let mirror = Material::new(Color::new(0, 0, 0), 0, [0, 0, 500_000, 0], SCALE);
    let objects = vec![unit_cube(mirror)];
    assert_eq!(cast_ray(&eye(), &down(), &objects, &[overhead()], 0), Color::new(126, 127, 73));
}

#[test]
fn mirror_shows_the_box_above_it() {
    let half = Material::new(Color::new(200, 100, 50), 10, [SCALE, 0, 250_000, 0], SCALE);
    let ceiling = cube(
        (-2_000_000, 6_000_000, -2_000_000),
        (2_000_000, 7_000_000, 2_000_000),
        Material::new(Color::new(10, 20, 250), 1, [SCALE, 0, 0, 0], SCALE),
    );
    let objects = vec![unit_cube(half), ceiling];
    let lamp = Light::new(Vec3::new(0, 4_000_000, 0), white(), SCALE);
    assert_eq!(
        cast_ray(&Vec3::new(0, 500_100, 0), &Vec3::new(0, SCALE, 0), &objects, &[lamp], 1),
        Color::new(10, 20, 250)
    );
    assert_eq!(cast_ray(&eye(), &down(), &objects, &[lamp], 0), Color::new(152, 80, 99));
}

#[test]
fn facing_mirrors_end_in_sky_at_the_depth_limit() {
    let full = || Material::new(Color::new(0, 0, 0), 0, [0, 0, SCALE, 0], SCALE);
    let objects = vec![
        cube((-2_000_000, -SCALE, -2_000_000), (2_000_000, 0, 2_000_000), full()),
        cube((-2_000_000, 4_000_000, -2_000_000), (2_000_000, 5_000_000, 2_000_000), full()),
    ];
    let from = Vec3::new(0, 2_000_000, 0);
    for depth in 0..5 {
        assert_eq!(cast_ray(&from, &down(), &objects, &[overhead()], depth), sky());
    }
}

#[test]
fn each_level_of_reflection_changes_the_color() {
    let tint = || Material::new(Color::new(100, 100, 100), 1, [500_000, 0, 500_000, 0], SCALE);
    let objects = vec![
        cube((-2_000_000, -SCALE, -2_000_000), (2_000_000, 0, 2_000_000), tint()),
        cube((-2_000_000, 4_000_000, -2_000_000), (2_000_000, 5_000_000, 2_000_000), tint()),
    ];
    let from = Vec3::new(0, 2_000_000, 0);
    let lamp = Light::new(from, white(), SCALE);
    assert_eq!(cast_ray(&from, &down(), &objects, &[lamp], 0), Color::new(62, 62, 56));
    assert_eq!(cast_ray(&from, &down(), &objects, &[lamp], 1), Color::new(75, 75, 62));
    assert_eq!(cast_ray(&from, &down(), &objects, &[lamp], 2), Color::new(100, 101, 74));
    assert_eq!(cast_ray(&from, &down(), &objects, &[lamp], 3), Color::new(151, 152, 98));
    assert_eq!(cast_ray(&from, &down(), &objects, &[lamp], 4), sky());
}

#[test]
fn glass_shows_what_lies_behind_it() {
    let glass = || Material::new(white(), 0, [0, 0, 0, 800_000], 1_500_000);
    let ground = cube(
        (-3_000_000, -3_000_000, -3_000_000),
        (3_000_000, -2_000_000, 3_000_000),
        Material::new(Color::new(40, 200, 40), 1, [SCALE, 0, 0, 0], SCALE),
    );
    let objects = vec![unit_cube(glass()), ground];
    assert_eq!(cast_ray(&eye(), &down(), &objects, &[overhead()], 0), Color::new(25, 128, 25));
    assert_eq!(
        cast_ray(&Vec3::new(0, 499_900, 0), &down(), &objects, &[overhead()], 1),
        Color::new(32, 161, 32)
    );
    let alone = vec![unit_cube(glass())];
    assert_eq!(cast_ray(&eye(), &down(), &alone, &[overhead()], 0), Color::new(202, 204, 116));
}

#[test]
fn weights_beyond_one_black_the_local_color_out() {
    let over = Material::new(Color::new(200, 100, 50), 10, [SCALE, 0, 800_000, 600_000], SCALE);
    assert!(over.is_overdrawn());
    let objects = vec![unit_cube(over)];
    assert_eq!(cast_ray(&eye(), &down(), &objects, &[overhead()], 0), Color::new(255, 255, 203));
    let edge = Material::new(Color::new(200, 100, 50), 10, [SCALE, 0, 500_000, 500_000], SCALE);
    assert!(!edge.is_overdrawn());
    let objects = vec![unit_cube(edge)];
    assert_eq!(cast_ray(&eye(), &down(), &objects, &[overhead()], 0), Color::new(252, 254, 146));
}

#[test]
fn blend_weighs_the_three_colors() {
    let local = Color::new(200, 100, 50);
    let reflection = Color::new(100, 100, 100);
    let refraction = Color::new(0, 50, 250);
    assert_eq!(blend(&local, &reflection, &refraction, 0, 0), local);
    assert_eq!(blend(&local, &reflection, &refraction, SCALE, 0), reflection);
    assert_eq!(blend(&local, &reflection, &refraction, 0, SCALE), refraction);
    assert_eq!(blend(&local, &reflection, &refraction, 250_000, 250_000), Color::new(125, 87, 112));
    assert_eq!(blend(&local, &reflection, &refraction, 800_000, 600_000), Color::new(80, 110, 230));
    assert_eq!(blend(&local, &reflection, &refraction, -SCALE, 0), Color::new(255, 200, 100));
    assert_eq!(blend(&local, &reflection, &refraction, FX_MAX, FX_MAX), Color::new(255, 255, 255));
}

#[test]
fn first_of_two_equally_near_boxes_is_seen() {
    let red = || unit_cube(Material::new(Color::new(255, 0, 0), 1, [SCALE, 0, 0, 0], SCALE));
    let blue = || unit_cube(Material::new(Color::new(0, 0, 255), 1, [SCALE, 0, 0, 0], SCALE));
    assert_eq!(cast_ray(&eye(), &down(), &[red(), blue()], &[overhead()], 0), Color::new(255, 0, 0));
    assert_eq!(cast_ray(&eye(), &down(), &[blue(), red()], &[overhead()], 0), Color::new(0, 0, 255));
}

#[test]
fn nearer_box_is_seen_whatever_its_place() {
    let red = || unit_cube(Material::new(Color::new(255, 0, 0), 1, [SCALE, 0, 0, 0], SCALE));
    let near = || {
        cube(
            (-500_000, SCALE, -500_000),
            (500_000, 2_000_000, 500_000),
            Material::new(Color::new(0, 0, 255), 1, [SCALE, 0, 0, 0], SCALE),
        )
    };
    let first = vec![near(), red()];
    let last = vec![red(), near()];
    let hit = nearest_hit(&last, &eye(), &down());
    assert!(hit.is_intersecting);
    assert_eq!(hit.distance, SCALE);
    assert_eq!(hit.point, Vec3::new(0, 2_000_000, 0));
    assert_eq!(hit.normal, Vec3::new(0, SCALE, 0));
    assert_eq!(hit.material.unwrap().diffuse, Color::new(0, 0, 255));
    assert_eq!(nearest_hit(&first, &eye(), &down()).distance, SCALE);
    assert_eq!(cast_ray(&eye(), &down(), &last, &[overhead()], 0), Color::new(0, 0, 255));
    assert_eq!(cast_ray(&eye(), &down(), &first, &[overhead()], 0), Color::new(0, 0, 255));
}

#[test]
fn nearest_hit_of_nothing_is_empty() {
    let nothing: Vec<Cube> = Vec::new();
    let hit = nearest_hit(&nothing, &eye(), &down());
    assert!(!hit.is_intersecting);
    assert_eq!(hit.distance, FX_MAX);
    assert!(hit.material.is_none());
    let objects = vec![unit_cube(matte())];
    let miss = nearest_hit(&objects, &eye(), &Vec3::new(SCALE, 0, 0));
    assert!(!miss.is_intersecting);
    assert_eq!(miss.distance, FX_MAX);
}

#[test]
fn hit_at_the_largest_distance_is_not_seen() {
    let objects = vec![unit_cube(matte())];
    let far = Vec3::new(0, 9_000_000_000_000_000_000, 0);
    let crawl = Vec3::new(0, -1, 0);
    assert!(objects[0].ray_intersect(&far, &crawl).is_intersecting);
    assert!(!nearest_hit(&objects, &far, &crawl).is_intersecting);
    assert_eq!(cast_ray(&far, &crawl, &objects, &[overhead()], 0), sky());
}

fn four_colors() -> Arc<Texture> {
    let pixels = vec![
        Color::new(10, 20, 30),
        Color::new(40, 50, 60),
        Color::new(70, 80, 90),
        Color::new(100, 110, 120),
    ];
    Arc::new(Texture::new(2, 2, pixels).unwrap())
}

#[test]
fn textured_box_shows_its_texture() {
    let material = Material::new_with_texture(1, [SCALE, 0, 0, 0], SCALE, four_colors());
    let objects = vec![unit_cube(material)];
    let lights = vec![overhead()];
    assert_eq!(cast_ray(&eye(), &down(), &objects, &lights, 0), Color::new(10, 20, 30));
    assert_eq!(
        cast_ray(&Vec3::new(-400_000, 3_000_000, -400_000), &down(), &objects, &lights, 0),
        Color::new(9, 19, 29)
    );
    assert_eq!(
        cast_ray(&Vec3::new(300_000, 3_000_000, 300_000), &down(), &objects, &lights, 0),
        Color::new(9, 19, 29)
    );
}

#[test]
fn emission_is_added_whatever_the_light() {
    let material = Material::new_with_emission_texture(
        1,
        [500_000, 0, 0, 0],
        SCALE,
        four_colors(),
        Color::new(9, 9, 9),
        2 * SCALE,
    );
    let objects = vec![unit_cube(material)];
    let from = Vec3::new(500_000, 3_000_000, 500_000);
    let none: Vec<Light> = Vec::new();
    assert_eq!(cast_ray(&from, &down(), &objects, &none, 0), Color::new(80, 100, 120));
    assert_eq!(cast_ray(&from, &down(), &objects, &[overhead()], 0), Color::new(80, 100, 120));
    assert_eq!(cast_ray(&eye(), &down(), &objects, &none, 0), Color::new(20, 40, 60));
}
