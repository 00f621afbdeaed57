use boxtrace::color::Color;
use boxtrace::cube::Cube;
use boxtrace::fixed::FX_MAX;
use boxtrace::fixed::SCALE;
use boxtrace::material::Material;
use boxtrace::ray_intersect::Intersect;
use boxtrace::square::Square;
use boxtrace::vector::Vec3;

fn plain_material() -> Material {
    Material::new(Color::new(200, 100, 50), 10, [900_000, 100_000, 0, 0], SCALE)
}

fn box_between(min: Vec3, max: Vec3) -> Cube {
    Cube { min, max, material: plain_material(), has_shadow: true, is_transparent: false }
}

fn unit_box() -> Cube {
    box_between(Vec3::new(-500_000, -500_000, -500_000), Vec3::new(500_000, 500_000, 500_000))
}

fn assert_hit(hit: &Intersect, point: (i64, i64, i64), normal: (i64, i64, i64), distance: i64, u: i64, v: i64) {
    assert!(hit.is_intersecting);
    assert_eq!(hit.point, Vec3::new(point.0, point.1, point.2));
    assert_eq!(hit.normal, Vec3::new(normal.0, normal.1, normal.2));
    assert_eq!(hit.distance, distance);
    assert_eq!(hit.u, u);
    assert_eq!(hit.v, v);
    assert!(hit.material.is_some());
}

fn assert_miss(hit: &Intersect) {
    assert!(!hit.is_intersecting);
    assert_eq!(hit.distance, FX_MAX);
    assert_eq!(hit.point, Vec3::new(0, 0, 0));
    assert_eq!(hit.normal, Vec3::new(0, 0, 0));
    assert_eq!(hit.u, 0);
    assert_eq!(hit.v, 0);
    assert!(hit.material.is_none());
}

#[test]
fn empty_record_is_infinitely_far() {
    assert_miss(&Intersect::empty());
}

#[test]
fn ray_from_above_hits_top_face() {
    let cube = unit_box();
    let hit = cube.ray_intersect(&Vec3::new(0, 5_000_000, 0), &Vec3::new(0, -SCALE, 0));
    assert_hit(&hit, (0, 500_000, 0), (0, SCALE, 0), 4_500_000, 500_000, 500_000);
}

#[test]
fn rays_at_the_center_hit_each_of_the_six_faces() {
    let cube = unit_box();
    let hit = cube.ray_intersect(&Vec3::new(0, -5_000_000, 0), &Vec3::new(0, SCALE, 0));
    assert_hit(&hit, (0, -500_000, 0), (0, -SCALE, 0), 4_500_000, 500_000, 500_000);
    let hit = cube.ray_intersect(&Vec3::new(-5_000_000, 0, 0), &Vec3::new(SCALE, 0, 0));
    assert_hit(&hit, (-500_000, 0, 0), (-SCALE, 0, 0), 4_500_000, 500_000, 500_000);
    let hit = cube.ray_intersect(&Vec3::new(5_000_000, 0, 0), &Vec3::new(-SCALE, 0, 0));
    assert_hit(&hit, (500_000, 0, 0), (SCALE, 0, 0), 4_500_000, 500_000, 500_000);
    let hit = cube.ray_intersect(&Vec3::new(0, 0, 5_000_000), &Vec3::new(0, 0, -SCALE));
    assert_hit(&hit, (0, 0, 500_000), (0, 0, SCALE), 4_500_000, 500_000, 500_000);
    let hit = cube.ray_intersect(&Vec3::new(0, 0, -5_000_000), &Vec3::new(0, 0, SCALE));
    assert_hit(&hit, (0, 0, -500_000), (0, 0, -SCALE), 4_500_000, 500_000, 500_000);
}

#[test]
fn diagonal_ray_at_the_center_hits_the_corner() {
    let cube = unit_box();
    let origin = Vec3::new(3_000_000, 3_000_000, 3_000_000);
    let direction = Vec3::new(-3_000_000, -3_000_000, -3_000_000).normalize();
    assert_eq!(direction, Vec3::new(-577_351, -577_351, -577_351));
    let hit = cube.ray_intersect(&origin, &direction);
    assert_hit(&hit, (500_000, 500_000, 500_000), (SCALE, 0, 0), 4_330_121, SCALE, SCALE);
}

#[test]
fn distance_counts_in_lengths_of_the_direction() {
    let cube = unit_box();
    let origin = Vec3::new(3_000_000, 3_000_000, 3_000_000);
    let hit = cube.ray_intersect(&origin, &Vec3::new(-SCALE, -SCALE, -SCALE));
    assert_hit(&hit, (500_000, 500_000, 500_000), (SCALE, 0, 0), 2_500_000, SCALE, SCALE);
}

#[test]
fn surface_coordinates_follow_the_hit_point() {
    let cube = unit_box();
    let hit = cube.ray_intersect(&Vec3::new(200_000, 5_000_000, -300_000), &Vec3::new(0, -SCALE, 0));
    assert_hit(&hit, (200_000, 500_000, -300_000), (0, SCALE, 0), 4_500_000, 700_000, 200_000);
    let tall = box_between(Vec3::new(SCALE, 0, -2_000_000), Vec3::new(3_000_000, 4_000_000, 2_000_000));
    let hit = tall.ray_intersect(&Vec3::new(-SCALE, SCALE, SCALE), &Vec3::new(SCALE, 0, 0));
    assert_hit(&hit, (SCALE, SCALE, SCALE), (-SCALE, 0, 0), 2_000_000, 750_000, 250_000);
}

#[test]
fn slanted_ray_lands_within_a_unit_of_the_face() {
    let cube = unit_box();
    let direction = Vec3::new(SCALE, -2_000_000, 500_000).normalize();
    assert_eq!(direction, Vec3::new(436_435, -872_872, 218_217));
    let hit = cube.ray_intersect(&Vec3::new(-2_000_000, 3_000_000, -SCALE), &direction);
    assert_hit(&hit, (-500_001, -7, -250_002), (-SCALE, 0, 0), 3_436_937, 249_998, 499_993);
    let tall = box_between(Vec3::new(SCALE, 0, -2_000_000), Vec3::new(3_000_000, 4_000_000, 2_000_000));
    let direction = Vec3::new(2_000_000, 2_000_000, 0).normalize();
    assert_eq!(direction, Vec3::new(707_106, 707_106, 0));
    let hit = tall.ray_intersect(&Vec3::new(-SCALE, 0, 0), &direction);
    assert_hit(&hit, (999_999, 1_999_999, 0), (-SCALE, 0, 0), 2_828_430, 500_000, 499_999);
}

#[test]
fn parallel_ray_beside_the_box_misses() {
    let cube = unit_box();
    let hit = cube.ray_intersect(&Vec3::new(2_000_000, 5_000_000, 0), &Vec3::new(0, -SCALE, 0));
    assert_miss(&hit);
}

#[test]
fn ray_leaving_the_box_behind_misses() {
    let cube = unit_box();
    let hit = cube.ray_intersect(&Vec3::new(0, 5_000_000, 0), &Vec3::new(0, SCALE, 0));
    assert_miss(&hit);
}

#[test]
fn ray_from_inside_the_box_misses() {
    let cube = unit_box();
    let hit = cube.ray_intersect(&Vec3::new(0, 0, 0), &Vec3::new(SCALE, 0, 0));
    assert_miss(&hit);
}

#[test]
fn motionless_ray_misses() {
    let cube = unit_box();
    assert_miss(&cube.ray_intersect(&Vec3::new(0, 5_000_000, 0), &Vec3::new(0, 0, 0)));
    assert_miss(&cube.ray_intersect(&Vec3::new(0, 0, 0), &Vec3::new(0, 0, 0)));
}

#[test]
fn ray_along_an_edge_plane_takes_the_x_face_first() {
    let cube = unit_box();
    let hit = cube.ray_intersect(&Vec3::new(500_000, 5_000_000, 0), &Vec3::new(0, -SCALE, 0));
    assert_hit(&hit, (500_000, 500_000, 0), (SCALE, 0, 0), 4_500_000, 500_000, SCALE);
    let hit = cube.ray_intersect(&Vec3::new(500_001, 5_000_000, 0), &Vec3::new(0, -SCALE, 0));
    assert_miss(&hit);
}

#[test]
fn flat_box_is_hit_on_its_low_face() {
    let flat = box_between(Vec3::new(0, 0, 0), Vec3::new(SCALE, 0, SCALE));
    let hit = flat.ray_intersect(&Vec3::new(500_000, SCALE, 500_000), &Vec3::new(0, -SCALE, 0));
    assert_hit(&hit, (500_000, 0, 500_000), (0, -SCALE, 0), SCALE, 500_000, 500_000);
}

#[test]
fn box_with_swapped_corners_is_still_hit() {
    let swapped = box_between(Vec3::new(0, 0, -500_000), Vec3::new(SCALE, SCALE, -SCALE));
    let hit = swapped.ray_intersect(&Vec3::new(500_000, 500_000, 5_000_000), &Vec3::new(0, 0, -SCALE));
    assert_hit(&hit, (500_000, 500_000, -500_000), (0, 0, -SCALE), 5_500_000, 500_000, 500_000);
    let hit = swapped.ray_intersect(&Vec3::new(-SCALE, 500_000, -750_000), &Vec3::new(SCALE, 0, 0));
    assert_hit(&hit, (0, 500_000, -750_000), (-SCALE, 0, 0), SCALE, 500_000, 500_000);
}

#[test]
fn far_hit_keeps_its_exact_distance() {
    let cube = unit_box();
    let hit = cube.ray_intersect(&Vec3::new(0, 9_000_000_000_000, 0), &Vec3::new(0, -1, 0));
    assert_hit(&hit, (0, 500_000, 0), (0, SCALE, 0), 8_999_999_500_000_000_000, 500_000, 500_000);
}

#[test]
fn hit_beyond_the_scalar_range_is_at_the_largest_distance() {
    let cube = unit_box();
    let hit = cube.ray_intersect(&Vec3::new(0, 9_000_000_000_000_000_000, 0), &Vec3::new(0, -1, 0));
    assert!(hit.is_intersecting);
    assert_eq!(hit.distance, FX_MAX);
}

#[test]
fn normal_at_prefers_low_faces_and_x_before_y_before_z() {
    let cube = unit_box();
    assert_eq!(cube.normal_at(&Vec3::new(-500_000, 500_000, 500_000)), Vec3::new(-SCALE, 0, 0));
    assert_eq!(cube.normal_at(&Vec3::new(500_099, 0, 0)), Vec3::new(SCALE, 0, 0));
    assert_eq!(cube.normal_at(&Vec3::new(500_100, -500_000, 0)), Vec3::new(0, -SCALE, 0));
    assert_eq!(cube.normal_at(&Vec3::new(0, 499_901, -500_000)), Vec3::new(0, SCALE, 0));
    assert_eq!(cube.normal_at(&Vec3::new(0, 499_900, -500_000)), Vec3::new(0, 0, -SCALE));
    assert_eq!(cube.normal_at(&Vec3::new(0, 0, 500_000)), Vec3::new(0, 0, SCALE));
    assert_eq!(cube.normal_at(&Vec3::new(0, 0, 0)), Vec3::new(0, 0, SCALE));
}

#[test]
fn surface_coordinates_pick_the_two_other_axes() {
    let cube = box_between(Vec3::new(0, 0, 0), Vec3::new(SCALE, 2_000_000, 4_000_000));
    let point = Vec3::new(250_000, 500_000, 3_000_000);
    assert_eq!(cube.surface_coordinates(&point, &Vec3::new(SCALE, 0, 0)), (750_000, 250_000));
    assert_eq!(cube.surface_coordinates(&point, &Vec3::new(0, -SCALE, 0)), (250_000, 750_000));
    assert_eq!(cube.surface_coordinates(&point, &Vec3::new(0, 0, SCALE)), (250_000, 250_000));
}

fn square_facing_z() -> Square {
    Square {
        center: Vec3::new(0, 0, 0),
        normal: Vec3::new(0, 0, SCALE),
        size: 2_000_000,
        material: plain_material(),
    }
}

#[test]
fn ray_hits_square_within_half_a_side() {
    let square = square_facing_z();
    let hit = square.ray_intersect(&Vec3::new(300_000, -400_000, 5_000_000), &Vec3::new(0, 0, -SCALE));
    assert_hit(&hit, (300_000, -400_000, 0), (0, 0, SCALE), 5_000_000, 0, 0);
    let hit = square.ray_intersect(&Vec3::new(SCALE, SCALE, 5_000_000), &Vec3::new(0, 0, -SCALE));
    assert_hit(&hit, (SCALE, SCALE, 0), (0, 0, SCALE), 5_000_000, 0, 0);
}

#[test]
fn ray_hits_square_from_behind_with_the_same_normal() {
    let square = square_facing_z();
    let hit = square.ray_intersect(&Vec3::new(0, 0, -5_000_000), &Vec3::new(0, 0, SCALE));
    assert_hit(&hit, (0, 0, 0), (0, 0, SCALE), 5_000_000, 0, 0);
}

#[test]
fn slanted_ray_hits_square() {
    let square = square_facing_z();
    let direction = Vec3::new(SCALE, 0, -2_000_000).normalize();
    let hit = square.ray_intersect(&Vec3::new(0, 0, 2_000_000), &direction);
    assert_hit(&hit, (999_997, 0, 0), (0, 0, SCALE), 2_236_065, 0, 0);
}

#[test]
fn ray_misses_square_beyond_half_a_side() {
    let square = square_facing_z();
    assert_miss(&square.ray_intersect(&Vec3::new(1_500_000, 0, 5_000_000), &Vec3::new(0, 0, -SCALE)));
    assert_miss(&square.ray_intersect(&Vec3::new(SCALE + 1, 0, 5_000_000), &Vec3::new(0, 0, -SCALE)));
}

#[test]
fn ray_parallel_to_square_misses() {
    let square = square_facing_z();
    assert_miss(&square.ray_intersect(&Vec3::new(0, 0, 5_000_000), &Vec3::new(SCALE, 0, 0)));
}

#[test]
fn ray_pointing_away_from_square_misses() {
    let square = square_facing_z();
    assert_miss(&square.ray_intersect(&Vec3::new(0, 0, 5_000_000), &Vec3::new(0, 0, SCALE)));
}
