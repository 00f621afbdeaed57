//! The recursive ray caster: secondary rays, shadows, shading and blending.
use crate::color::Color;
use crate::color::black;
use crate::color::color_scaled;
use crate::color::color_sum;
use crate::cube::Cube;
use crate::cube::cube_hit;
use crate::cube::in_reach;
use crate::cube::is_axis_unit;
use crate::cube::lemma_hit_point_on_box;
use crate::cube::lemma_parallel_ray_misses;
use crate::cube::lemma_receding_ray_misses;
use crate::fixed::FX_MAX;
use crate::fixed::SCALE;
use crate::fixed::clamped;
use crate::fixed::difference;
use crate::fixed::fx_add;
use crate::fixed::fx_clamp;
use crate::fixed::fx_div;
use crate::fixed::fx_mul;
use crate::fixed::fx_pow;
use crate::fixed::fx_sqrt;
use crate::fixed::fx_sub;
use crate::fixed::lemma_floor_sqrt_is;
use crate::fixed::power;
use crate::fixed::product;
use crate::fixed::quotient;
use crate::fixed::sat;
use crate::fixed::square_root;
use crate::fixed::sum;
use crate::light::Light;
use crate::material::Material;
use crate::material::diffuse_at;
use crate::material::emission_at;
use crate::ray_intersect::Intersect;
use crate::ray_intersect::no_hit;
use crate::vector::Vec3;
use crate::vector::at_most_unit;
use crate::vector::dot_product;
use crate::vector::magnitude;
use crate::vector::normalized;
use crate::vector::vec_diff;
use crate::vector::vec_neg;
use crate::vector::vec_scaled;
use crate::vector::vec_sum;
use vstd::prelude::*;

verus! {

/// How far a secondary ray's origin is moved off the surface it starts on: a
/// ten-thousandth.
pub const ORIGIN_BIAS: i64 = 100;

/// The deepest level of recursion at which rays are still traced.
pub const MAX_DEPTH: u32 = 3;

/// The color of a ray that meets nothing.
pub open spec fn skybox_color() -> Color {
    Color { r: 253, g: 255, b: 146 }
}

/// The color of a ray that meets nothing.
pub fn skybox() -> (c: Color)
    ensures
        c == skybox_color(),
{
    Color::new(253, 255, 146)
}

/// The origin of a secondary ray that leaves `point` along `direction`: the
/// point moved by `ORIGIN_BIAS` along `normal`, against the normal when the
/// ray heads into the surface and with it otherwise.
pub open spec fn biased_origin(point: Vec3, normal: Vec3, direction: Vec3) -> Vec3 {
    let offset = vec_scaled(normal, ORIGIN_BIAS as int);
    if dot_product(direction, normal) < 0 {
        vec_diff(point, offset)
    } else {
        vec_sum(point, offset)
    }
}

/// The mirror image of `incident` about the plane with normal `normal`:
/// `I - 2 (I . N) N`.
pub open spec fn reflected(incident: Vec3, normal: Vec3) -> Vec3 {
    vec_diff(incident, vec_scaled(normal, sat(2 * dot_product(incident, normal))))
}

/// The direction of `incident` after it crosses a surface with normal
/// `normal` into or out of a medium of refractive index `eta_t`, by Snell's
/// law; the mirror image where no ray is transmitted.
pub open spec fn refracted(incident: Vec3, normal: Vec3, eta_t: int) -> Vec3 {
    let cosi = -clamped(dot_product(incident, normal), -SCALE, SCALE as int);
    let entering = cosi < 0;
    let c = if entering { -cosi } else { cosi };
    let eta = if entering { quotient(SCALE as int, eta_t) } else { eta_t };
    let n = if entering { vec_neg(normal) } else { normal };
    let k = difference(
        SCALE as int,
        product(product(eta, eta), difference(SCALE as int, product(c, c))),
    );
    if k < 0 {
        reflected(incident, n)
    } else {
        vec_sum(
            vec_scaled(incident, eta),
            vec_scaled(n, difference(product(eta, c), square_root(k))),
        )
    }
}

/// Moves the origin of a secondary ray off the surface it starts on.
pub fn offset_origin(intersect: &Intersect, direction: &Vec3) -> (origin: Vec3)
    ensures
        origin == biased_origin(intersect.point, intersect.normal, *direction),
{
    let offset = intersect.normal.scale(ORIGIN_BIAS);
    if direction.dot(&intersect.normal) < 0 {
        intersect.point.sub(&offset)
    } else {
        intersect.point.add(&offset)
    }
}

/// Mirrors `incident` about the plane with normal `normal`.
pub fn reflect(incident: &Vec3, normal: &Vec3) -> (r: Vec3)
    ensures
        r == reflected(*incident, *normal),
{
    let d: i64 = incident.dot(normal);
    incident.sub(&normal.scale(fx_add(d, d)))
}

/// Bends `incident` across a surface with normal `normal` and refractive
/// index `eta_t`; mirrors it where no ray is transmitted.
pub fn refract(incident: &Vec3, normal: &Vec3, eta_t: i64) -> (r: Vec3)
    ensures
        r == refracted(*incident, *normal, eta_t as int),
{
    let cosi: i64 = -fx_clamp(incident.dot(normal), -SCALE, SCALE);
    let n_cosi: i64;
    let eta: i64;
    let n_normal: Vec3;
    if cosi < 0 {
        n_cosi = -cosi;
        eta = fx_div(SCALE, eta_t);
        n_normal = normal.neg();
    } else {
        n_cosi = cosi;
        eta = eta_t;
        n_normal = *normal;
    }
    let k: i64 = fx_sub(SCALE, fx_mul(fx_mul(eta, eta), fx_sub(SCALE, fx_mul(n_cosi, n_cosi))));
    if k < 0 {
        reflect(incident, &n_normal)
    } else {
        let along: Vec3 = incident.scale(eta);
        let across: Vec3 = n_normal.scale(fx_sub(fx_mul(eta, n_cosi), fx_sqrt(k)));
        along.add(&across)
    }
}

/// Reflecting twice about the same axis-aligned unit normal gives the
/// incident vector back, for every incident vector whose coordinates are at
/// most half of `FX_MAX` in magnitude.
pub proof fn lemma_reflect_involution(incident: Vec3, normal: Vec3)
    requires
        is_axis_unit(normal),
        -FX_MAX <= 2 * incident.x <= FX_MAX,
        -FX_MAX <= 2 * incident.y <= FX_MAX,
        -FX_MAX <= 2 * incident.z <= FX_MAX,
    ensures
        reflected(reflected(incident, normal), normal) == incident,
{
    let once = reflected(incident, normal);
    lemma_reflect_axis(incident, normal);
    lemma_reflect_axis(once, normal);
}

/// Multiplying by one, by minus one or by zero is exact.
proof fn lemma_unit_products(x: int)
    ensures
        (SCALE * x) / (SCALE as int) == x,
        (x * SCALE) / (SCALE as int) == x,
        ((-SCALE) * x) / (SCALE as int) == -x,
        (x * (-SCALE)) / (SCALE as int) == -x,
        (0 * x) / (SCALE as int) == 0,
        (x * 0) / (SCALE as int) == 0,
{
}

/// Reflection about an axis-aligned unit normal negates the coordinate on
/// that axis and keeps the other two.
pub proof fn lemma_reflect_axis(incident: Vec3, normal: Vec3)
    requires
        is_axis_unit(normal),
        -FX_MAX <= 2 * incident.x <= FX_MAX,
        -FX_MAX <= 2 * incident.y <= FX_MAX,
        -FX_MAX <= 2 * incident.z <= FX_MAX,
    ensures
        reflected(incident, normal) == (Vec3 {
            x: if normal.x != 0 { (-incident.x) as i64 } else { incident.x },
            y: if normal.y != 0 { (-incident.y) as i64 } else { incident.y },
            z: if normal.z != 0 { (-incident.z) as i64 } else { incident.z },
        }),
{
    let d = dot_product(incident, normal);
    let k = sat(2 * d);
    lemma_unit_products(k);
    lemma_unit_products(incident.x as int);
    lemma_unit_products(incident.y as int);
    lemma_unit_products(incident.z as int);
}

/// A ray that meets an axis-aligned surface head-on goes straight through:
/// its refracted direction is its own direction, whatever positive
/// refractive index the medium has.
pub proof fn lemma_refract_normal_incidence(normal: Vec3, eta_t: int)
    requires
        is_axis_unit(normal),
        0 < eta_t <= FX_MAX,
    ensures
        refracted(vec_neg(normal), normal, eta_t) == vec_neg(normal),
{
    let incident = vec_neg(normal);
    lemma_unit_products(SCALE as int);
    lemma_unit_products(-SCALE);
    lemma_unit_products(0);
    assert(dot_product(incident, normal) == -SCALE);
    let e2 = product(eta_t, eta_t);
    lemma_unit_products(e2);
    assert(1_000_000int * 1_000_000 == 1_000_000_000_000);
    assert(1_000_001int * 1_000_001 == 1_000_002_000_001);
    lemma_floor_sqrt_is(SCALE * SCALE, SCALE as int);
    assert(square_root(SCALE as int) == SCALE);
    lemma_unit_products(eta_t);
    lemma_unit_products(eta_t - SCALE);
}

/// A secondary ray that leaves the face it starts on does not meet the box
/// of that face again: where a ray along a direction of at most unit length
/// met the box at a point on the face with normal as recorded, the ray from
/// the biased origin along any direction that does not head into the face
/// misses the box. So no box shadows the face of its own that a light shines
/// on.
pub proof fn lemma_box_misses_itself(c: Cube, o: Vec3, d: Vec3, onward: Vec3)
    requires
        c.wf(),
        in_reach(c.min),
        in_reach(c.max),
        in_reach(o),
        at_most_unit(d),
        cube_hit(&c, o, d).is_intersecting,
        dot_product(onward, cube_hit(&c, o, d).normal) >= 0,
        -FX_MAX <= onward.x && -FX_MAX <= onward.y && -FX_MAX <= onward.z,
    ensures
        cube_hit(
            &c,
            biased_origin(cube_hit(&c, o, d).point, cube_hit(&c, o, d).normal, onward),
            onward,
        ) == no_hit(),
{
    let hit = cube_hit(&c, o, d);
    lemma_hit_point_on_box(c, o, d);
    lemma_unit_products(ORIGIN_BIAS as int);
    lemma_unit_products(onward.x as int);
    lemma_unit_products(onward.y as int);
    lemma_unit_products(onward.z as int);
    let from = biased_origin(hit.point, hit.normal, onward);
    if hit.normal.x != 0 && onward.x == 0 || hit.normal.y != 0 && onward.y == 0 || hit.normal.z
        != 0 && onward.z == 0 {
        lemma_parallel_ray_misses(c, from, onward);
    } else {
        lemma_receding_ray_misses(c, from, onward);
    }
}

/// The direction from a hit point to a light.
pub open spec fn light_direction(hit: Intersect, light: Light) -> Vec3 {
    normalized(vec_diff(light.position, hit.point))
}

/// The distance from a hit point to a light.
pub open spec fn light_distance(hit: Intersect, light: Light) -> int {
    magnitude(vec_diff(light.position, hit.point))
}

/// The origin of the shadow ray from a hit point toward a light.
pub open spec fn shadow_origin(hit: Intersect, light: Light) -> Vec3 {
    biased_origin(hit.point, hit.normal, light_direction(hit, light))
}

/// The box casts shadows and the ray from `origin` along `direction` meets
/// it nearer than `reach`.
pub open spec fn occludes(c: Cube, origin: Vec3, direction: Vec3, reach: int) -> bool {
    c.has_shadow && cube_hit(&c, origin, direction).is_intersecting && cube_hit(
        &c,
        origin,
        direction,
    ).distance < reach
}

/// The box occludes the ray and lets no light through.
pub open spec fn blocks(c: Cube, origin: Vec3, direction: Vec3, reach: int) -> bool {
    occludes(c, origin, direction, reach) && c.material.albedo[3] <= 0
}

/// The share of light that a translucent occluder takes: one minus its
/// transmissive weight, times one minus the squared ratio of its distance to
/// the light's, the square held at one.
pub open spec fn dimming(c: Cube, origin: Vec3, direction: Vec3, reach: int) -> int {
    let ratio = quotient(cube_hit(&c, origin, direction).distance as int, reach);
    let squared = product(ratio, ratio);
    let falloff = SCALE - (if squared > SCALE { SCALE as int } else { squared });
    product(difference(SCALE as int, c.material.albedo[3] as int), falloff)
}

/// The shares of light taken by the translucent occluders among the first
/// `n` boxes, added up in order.
pub open spec fn dimmed(
    objects: Seq<Cube>,
    n: nat,
    origin: Vec3,
    direction: Vec3,
    reach: int,
) -> int
    decreases n,
{
    if n == 0 {
        0
    } else {
        let rest = dimmed(objects, (n - 1) as nat, origin, direction, reach);
        let c = objects[n - 1];
        if occludes(c, origin, direction, reach) && !blocks(c, origin, direction, reach) {
            sum(rest, dimming(c, origin, direction, reach))
        } else {
            rest
        }
    }
}

/// The fraction of a light's contribution that the scene keeps from a hit
/// point, from zero (fully lit) to one (fully shadowed): one if any opaque
/// box occludes the light, else the shares that the translucent occluders
/// take, together held between zero and one.
pub open spec fn shadow_factor(hit: Intersect, light: Light, objects: Seq<Cube>) -> int {
    let origin = shadow_origin(hit, light);
    let direction = light_direction(hit, light);
    let reach = light_distance(hit, light);
    if exists|j: int| 0 <= j < objects.len() && blocks(#[trigger] objects[j], origin, direction, reach) {
        SCALE as int
    } else {
        clamped(dimmed(objects, objects.len(), origin, direction, reach), 0, SCALE as int)
    }
}

/// Where no box among the first `n` occludes the ray, no light is taken.
pub proof fn lemma_dimmed_without_occluders(
    objects: Seq<Cube>,
    n: nat,
    origin: Vec3,
    direction: Vec3,
    reach: int,
)
    requires
        n <= objects.len(),
        forall|j: int| 0 <= j < n ==> !occludes(#[trigger] objects[j], origin, direction, reach),
    ensures
        dimmed(objects, n, origin, direction, reach) == 0,
    decreases n,
{
    if n > 0 {
        lemma_dimmed_without_occluders(objects, (n - 1) as nat, origin, direction, reach);
    }
}

/// How much of a light's contribution is kept from the hit point: zero for
/// a fully lit point, one for a fully shadowed one.
///
/// Shadows follow the opacity of what casts them. An opaque box that casts shadows and lies between the point and the light
/// shadows the point fully. A translucent one takes a share that grows with
/// its opacity and shrinks as it nears the light; the shares add up.
pub fn cast_shadow(intersect: &Intersect, light: &Light, objects: &[Cube]) -> (shadow: i64)
    ensures
        shadow == shadow_factor(*intersect, *light, objects@),
        0 <= shadow <= SCALE,
        (forall|j: int|
            0 <= j < objects@.len() ==> !occludes(
                #[trigger] objects@[j],
                shadow_origin(*intersect, *light),
                light_direction(*intersect, *light),
                light_distance(*intersect, *light),
            )) ==> shadow == 0,
        (exists|j: int|
            0 <= j < objects@.len() && blocks(
                #[trigger] objects@[j],
                shadow_origin(*intersect, *light),
                light_direction(*intersect, *light),
                light_distance(*intersect, *light),
            )) ==> shadow == SCALE,
{
    let to_light: Vec3 = light.position.sub(&intersect.point);
    let light_dir: Vec3 = to_light.normalize();
    let reach: i64 = to_light.magnitude();
    let origin: Vec3 = offset_origin(intersect, &light_dir);
    let mut taken: i64 = 0;
    let mut i: usize = 0;
    while i < objects.len()
        invariant
            i <= objects@.len(),
            origin == shadow_origin(*intersect, *light),
            light_dir == light_direction(*intersect, *light),
            reach == light_distance(*intersect, *light),
            taken == dimmed(objects@, i as nat, origin, light_dir, reach as int),
            forall|j: int| 0 <= j < i ==> !blocks(#[trigger] objects@[j], origin, light_dir, reach as int),
        decreases objects@.len() - i,
    {
        let object = &objects[i];
        if object.has_shadow {
            let hit = object.ray_intersect(&origin, &light_dir);
            if hit.is_intersecting && hit.distance < reach {
                if object.material.albedo[3] > 0 {
                    let ratio: i64 = fx_div(hit.distance, reach);
                    let squared: i64 = fx_mul(ratio, ratio);
                    let falloff: i64 = SCALE - (if squared > SCALE { SCALE } else { squared });
                    taken = fx_add(taken, fx_mul(fx_sub(SCALE, object.material.albedo[3]), falloff));
                } else {
                    assert(blocks(objects@[i as int], origin, light_dir, reach as int));
                    return SCALE;
                }
            }
        }
        i = i + 1;
    }
    proof {
        if forall|j: int|
            0 <= j < objects@.len() ==> !occludes(
                #[trigger] objects@[j],
                origin,
                light_dir,
                reach as int,
            ) {
            lemma_dimmed_without_occluders(objects@, objects@.len(), origin, light_dir, reach as int);
        }
    }
    fx_clamp(taken, 0, SCALE)
}

/// What the ray from `o` along `d` meets of each box, in the order of the
/// boxes.
pub open spec fn hits<'a>(objects: Seq<Cube>, o: Vec3, d: Vec3) -> Seq<Intersect<'a>> {
    Seq::new(objects.len(), |j: int| cube_hit(&objects[j], o, d))
}

/// The record is a hit at a finite distance.
pub open spec fn in_view(hit: Intersect) -> bool {
    hit.is_intersecting && hit.distance < FX_MAX
}

/// The nearest hit among the first `n` records; of two hits at the same
/// distance, the one that comes first.
pub open spec fn nearest_of<'a>(records: Seq<Intersect<'a>>, n: nat) -> Intersect<'a>
    decreases n,
{
    if n == 0 {
        no_hit()
    } else {
        let best = nearest_of(records, (n - 1) as nat);
        let hit = records[n - 1];
        if hit.is_intersecting && hit.distance < best.distance {
            hit
        } else {
            best
        }
    }
}

/// `k` is the place of the nearest hit among the first `n` records: it is in
/// view, no record in view is nearer, and every record in view before it is
/// strictly farther.
pub open spec fn is_nearest(records: Seq<Intersect>, n: nat, k: int) -> bool {
    &&& 0 <= k < n
    &&& in_view(records[k])
    &&& forall|j: int|
        0 <= j < n && in_view(#[trigger] records[j]) ==> {
            &&& records[k].distance <= records[j].distance
            &&& j < k ==> records[k].distance < records[j].distance
        }
}

/// `nearest_of` is the empty record exactly when no record is in view, and
/// otherwise the record at the place of the nearest hit.
pub proof fn lemma_nearest_of(records: Seq<Intersect>, n: nat)
    requires
        n <= records.len(),
    ensures
        nearest_of(records, n).is_intersecting <==> exists|j: int|
            0 <= j < n && in_view(#[trigger] records[j]),
        !nearest_of(records, n).is_intersecting ==> nearest_of(records, n) == no_hit(),
        nearest_of(records, n).is_intersecting ==> exists|k: int| #[trigger]
            is_nearest(records, n, k) && nearest_of(records, n) == records[k],
    decreases n,
{
    if n > 0 {
        let m = (n - 1) as nat;
        lemma_nearest_of(records, m);
        let best = nearest_of(records, m);
        let hit = records[n - 1];
        if hit.is_intersecting && hit.distance < best.distance {
            assert(in_view(records[n - 1]));
            assert(is_nearest(records, n, n - 1));
        } else if best.is_intersecting {
            let k = choose|k: int| #[trigger] is_nearest(records, m, k) && best == records[k];
            assert(is_nearest(records, n, k));
        } else {
            assert(!in_view(records[n - 1]));
        }
    }
}

/// Finds the nearest box that the ray meets.
///
/// The result is the empty record exactly when the ray meets no box at a
/// finite distance. Otherwise it is the hit of the nearest such box, and of
/// the first of them in `objects` where several are equally near.
pub fn nearest_hit<'a>(objects: &'a [Cube], origin: &Vec3, direction: &Vec3) -> (hit: Intersect<'a>)
    ensures
        hit == nearest_of(hits(objects@, *origin, *direction), objects@.len()),
        hit.is_intersecting <==> exists|j: int|
            0 <= j < objects@.len() && in_view(#[trigger] hits(objects@, *origin, *direction)[j]),
        !hit.is_intersecting ==> hit == no_hit(),
        hit.is_intersecting ==> exists|k: int| #[trigger]
            is_nearest(hits(objects@, *origin, *direction), objects@.len(), k) && hit == hits(
                objects@,
                *origin,
                *direction,
            )[k],
{
    let mut best = Intersect::empty();
    let mut i: usize = 0;
    while i < objects.len()
        invariant
            i <= objects@.len(),
            best == nearest_of(hits(objects@, *origin, *direction), i as nat),
        decreases objects@.len() - i,
    {
        let hit = objects[i].ray_intersect(origin, direction);
        if hit.is_intersecting && hit.distance < best.distance {
            best = hit;
        }
        i = i + 1;
    }
    proof {
        lemma_nearest_of(hits(objects@, *origin, *direction), objects@.len());
    }
    best
}

/// What one light adds at a hit point seen from `eye`: the diffuse color
/// weighted by how squarely the surface faces the light, plus the light's
/// color weighted by the highlight, both dimmed by the shadow on the point.
pub open spec fn light_term(
    hit: Intersect,
    m: Material,
    eye: Vec3,
    light: Light,
    objects: Seq<Cube>,
) -> Color {
    let light_dir = light_direction(hit, light);
    let view_dir = normalized(vec_diff(eye, hit.point));
    let reflect_dir = normalized(reflected(vec_neg(light_dir), hit.normal));
    let strength = product(light.intensity as int, SCALE - shadow_factor(hit, light, objects));
    let facing = clamped(dot_product(hit.normal, light_dir), 0, SCALE as int);
    let aligned = dot_product(view_dir, reflect_dir);
    let shine = power(if aligned < 0 { 0 } else { aligned }, m.specular as nat);
    color_sum(
        color_scaled(
            diffuse_at(m, hit.u as int, hit.v as int),
            product(product(m.albedo[0] as int, facing), strength),
        ),
        color_scaled(light.color, product(product(m.albedo[1] as int, shine), strength)),
    )
}

/// What the first `n` lights add at a hit point, summed in order.
pub open spec fn lit(
    hit: Intersect,
    m: Material,
    eye: Vec3,
    lights: Seq<Light>,
    n: nat,
    objects: Seq<Cube>,
) -> Color
    decreases n,
{
    if n == 0 {
        black()
    } else {
        color_sum(
            lit(hit, m, eye, lights, (n - 1) as nat, objects),
            light_term(hit, m, eye, lights[n - 1], objects),
        )
    }
}

/// The color of a hit point before reflection and refraction: what all the
/// lights add, plus what the material emits.
pub open spec fn local_color(
    hit: Intersect,
    m: Material,
    eye: Vec3,
    lights: Seq<Light>,
    objects: Seq<Cube>,
) -> Color {
    let shaded = lit(hit, m, eye, lights, lights.len(), objects);
    if m.has_emission {
        color_sum(shaded, emission_at(m, hit.u as int, hit.v as int))
    } else {
        shaded
    }
}

/// The final mix: the local color weighted by what the reflective weight
/// `kr` and the transmissive weight `kt` leave of one, the reflected color
/// weighted by `kr`, the refracted color by `kt`. A negative weight blacks
/// its term out.
pub open spec fn blended(local: Color, reflection: Color, refraction: Color, kr: int, kt: int) -> Color {
    color_sum(
        color_sum(
            color_scaled(local, difference(difference(SCALE as int, kr), kt)),
            color_scaled(reflection, kr),
        ),
        color_scaled(refraction, kt),
    )
}

/// The color that the ray from `o` along `d` brings back at recursion level
/// `depth`.
pub open spec fn ray_color(
    o: Vec3,
    d: Vec3,
    objects: Seq<Cube>,
    lights: Seq<Light>,
    depth: nat,
) -> Color
    decreases MAX_DEPTH + 1 - depth,
{
    if depth > MAX_DEPTH {
        skybox_color()
    } else {
        let hit = nearest_of(hits(objects, o, d), objects.len());
        match hit.material {
            Some(m) if hit.is_intersecting => {
                let kr = m.albedo[2] as int;
                let kt = m.albedo[3] as int;
                let mirror = normalized(reflected(d, hit.normal));
                let bent = refracted(d, hit.normal, m.refractive_index as int);
                let reflection = if kr > 0 {
                    ray_color(
                        biased_origin(hit.point, hit.normal, mirror),
                        mirror,
                        objects,
                        lights,
                        depth + 1,
                    )
                } else {
                    black()
                };
                let refraction = if kt > 0 {
                    ray_color(
                        biased_origin(hit.point, hit.normal, bent),
                        bent,
                        objects,
                        lights,
                        depth + 1,
                    )
                } else {
                    black()
                };
                blended(local_color(hit, *m, o, lights, objects), reflection, refraction, kr, kt)
            },
            _ => skybox_color(),
        }
    }
}

/// What one light adds at a hit point seen from `eye`.
pub fn light_contribution(
    hit: &Intersect,
    material: &Material,
    eye: &Vec3,
    light: &Light,
    objects: &[Cube],
) -> (c: Color)
    ensures
        c == light_term(*hit, *material, *eye, *light, objects@),
{
    let light_dir: Vec3 = light.position.sub(&hit.point).normalize();
    let view_dir: Vec3 = eye.sub(&hit.point).normalize();
    let reflect_dir: Vec3 = reflect(&light_dir.neg(), &hit.normal).normalize();
    let shadow: i64 = cast_shadow(hit, light, objects);
    let strength: i64 = fx_mul(light.intensity, SCALE - shadow);
    let facing: i64 = fx_clamp(hit.normal.dot(&light_dir), 0, SCALE);
    let diffuse: Color = material.get_diffuse_color(hit.u, hit.v).scale(
        fx_mul(fx_mul(material.albedo[0], facing), strength),
    );
    let aligned: i64 = view_dir.dot(&reflect_dir);
    let shine: i64 = fx_pow(if aligned < 0 { 0 } else { aligned }, material.specular);
    let specular: Color = light.color.scale(fx_mul(fx_mul(material.albedo[1], shine), strength));
    diffuse.add(&specular)
}

/// The color of a hit point before reflection and refraction.
pub fn shade(hit: &Intersect, material: &Material, eye: &Vec3, lights: &[Light], objects: &[Cube]) -> (c:
    Color)
    ensures
        c == local_color(*hit, *material, *eye, lights@, objects@),
{
    let mut shaded = Color::black();
    let mut i: usize = 0;
    while i < lights.len()
        invariant
            i <= lights@.len(),
            shaded == lit(*hit, *material, *eye, lights@, i as nat, objects@),
        decreases lights@.len() - i,
    {
        let term = light_contribution(hit, material, eye, &lights[i], objects);
        shaded = shaded.add(&term);
        i = i + 1;
    }
    if material.has_emission {
        shaded.add(&material.get_emission_color(hit.u, hit.v))
    } else {
        shaded
    }
}

/// Mixes the local, reflected and refracted colors by the reflective weight
/// `kr` and the transmissive weight `kt`.
pub fn blend(local: &Color, reflection: &Color, refraction: &Color, kr: i64, kt: i64) -> (c: Color)
    ensures
        c == blended(*local, *reflection, *refraction, kr as int, kt as int),
{
    local.scale(fx_sub(fx_sub(SCALE, kr), kt)).add(&reflection.scale(kr)).add(&refraction.scale(kt))
}

/// The color that the ray from `ray_origin` along `ray_direction` brings
/// back.
///
/// Beyond `MAX_DEPTH`, and where the ray meets no box, that is the skybox
/// color. Otherwise it is the blend of the local shading at the nearest hit
/// with what a reflected ray and a refracted ray bring back one level
/// deeper; each of the two is traced only while its weight is positive.
pub fn cast_ray(
    ray_origin: &Vec3,
    ray_direction: &Vec3,
    objects: &[Cube],
    lights: &[Light],
    depth: u32,
) -> (color: Color)
    ensures
        color == ray_color(*ray_origin, *ray_direction, objects@, lights@, depth as nat),
        depth > MAX_DEPTH ==> color == skybox_color(),
    decreases MAX_DEPTH + 1 - depth,
{
    if depth > MAX_DEPTH {
        return skybox();
    }
    let hit = nearest_hit(objects, ray_origin, ray_direction);
    if !hit.is_intersecting {
        return skybox();
    }
    let material: &Material = match hit.material {
        Some(m) => m,
        None => {
            return skybox();
        },
    };
    let local: Color = shade(&hit, material, ray_origin, lights, objects);
    let reflectivity: i64 = material.albedo[2];
    let transparency: i64 = material.albedo[3];
    let mut reflect_color = Color::black();
    if reflectivity > 0 {
        let reflect_dir: Vec3 = reflect(ray_direction, &hit.normal).normalize();
        let reflect_origin: Vec3 = offset_origin(&hit, &reflect_dir);
        reflect_color = cast_ray(&reflect_origin, &reflect_dir, objects, lights, depth + 1);
    }
    let mut refract_color = Color::black();
    if transparency > 0 {
        let refract_dir: Vec3 = refract(ray_direction, &hit.normal, material.refractive_index);
        let refract_origin: Vec3 = offset_origin(&hit, &refract_dir);
        refract_color = cast_ray(&refract_origin, &refract_dir, objects, lights, depth + 1);
    }
    blend(&local, &reflect_color, &refract_color, reflectivity, transparency)
}

} // verus!
