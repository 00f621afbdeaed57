//! Rendering: one primary ray per pixel.
use crate::camera::Camera;
use crate::camera::basis_changed;
use crate::castray::cast_ray;
use crate::castray::ray_color;
use crate::color::packed;
use crate::cube::Cube;
use crate::fixed::SCALE;
use crate::fixed::fx_mul;
use crate::fixed::lemma_floor_div_bounds;
use crate::fixed::product;
use crate::fixed::sat;
use crate::fixed::saturate;
use crate::framebuffer::Framebuffer;
use crate::light::Light;
use crate::vector::Vec3;
use crate::vector::normalized;
use vstd::prelude::*;

verus! {

/// The tangent of half the field of view, which is a third of a half turn.
pub const PERSPECTIVE_SCALE: i64 = 577_350;

/// The direction, in the camera's own axes, of the primary ray through the
/// pixel in column `x` and row `y` of an image of `width` by `height`.
pub open spec fn screen_direction(x: int, y: int, width: int, height: int) -> Vec3 {
    let across = (2 * x * SCALE) / width - SCALE;
    let upward = sat(SCALE - (2 * y * SCALE) / height);
    let aspect = sat((width * SCALE) / height);
    normalized(
        Vec3 {
            x: product(product(across, aspect), PERSPECTIVE_SCALE as int) as i64,
            y: product(upward, PERSPECTIVE_SCALE as int) as i64,
            z: (-SCALE) as i64,
        },
    )
}

/// The packed color of the pixel at place `index`, counted row by row, of an
/// image of `width` by `height`.
pub open spec fn pixel_value(
    index: int,
    width: int,
    height: int,
    objects: Seq<Cube>,
    camera: Camera,
    lights: Seq<Light>,
) -> int {
    packed(
        ray_color(
            camera.eye,
            basis_changed(camera, screen_direction(index % width, index / width, width, height)),
            objects,
            lights,
            0,
        ),
    )
}

/// The framebuffer holds the image of the scene that the camera sees: it is
/// well formed and every pixel has the value that its place, the image size,
/// the camera and the scene give it.
pub open spec fn is_image_of(
    f: Framebuffer,
    objects: Seq<Cube>,
    camera: Camera,
    lights: Seq<Light>,
) -> bool {
    &&& f.wf()
    &&& forall|i: int|
        0 <= i < f.buffer@.len() ==> #[trigger] f.buffer@[i] == pixel_value(
            i,
            f.width as int,
            f.height as int,
            objects,
            camera,
            lights,
        )
}

/// Two images of one size, of the same scene and seen by the same camera,
/// are the same pixel for pixel: rendering again changes nothing.
pub proof fn lemma_render_is_repeatable(
    first: Framebuffer,
    second: Framebuffer,
    objects: Seq<Cube>,
    camera: Camera,
    lights: Seq<Light>,
)
    requires
        first.width == second.width,
        first.height == second.height,
        is_image_of(first, objects, camera, lights),
        is_image_of(second, objects, camera, lights),
    ensures
        first.buffer@ == second.buffer@,
{
    assert(first.buffer@ =~= second.buffer@);
}

/// The direction of the primary ray through a pixel, in the camera's axes.
fn direction_through(x: usize, y: usize, width: usize, height: usize) -> (d: Vec3)
    requires
        x < width,
        height > 0,
    ensures
        d == screen_direction(x as int, y as int, width as int, height as int),
{
    let doubled: u128 = 2 * (x as u128) * 1_000_000;
    let share: u128 = doubled / (width as u128);
    proof {
        lemma_floor_div_bounds(doubled as int, width as int);
        assert(share < 2_000_000) by (nonlinear_arith)
            requires
                share * width <= doubled,
                doubled == 2 * x * 1_000_000,
                x < width,
                0 <= share,
        ;
    }
    let across: i64 = share as i64 - SCALE;
    let upward: i64 = saturate(
        SCALE as i128 - ((2 * (y as u128) * 1_000_000) / (height as u128)) as i128,
    );
    let aspect: i64 = saturate((((width as u128) * 1_000_000) / (height as u128)) as i128);
    Vec3::new(
        fx_mul(fx_mul(across, aspect), PERSPECTIVE_SCALE),
        fx_mul(upward, PERSPECTIVE_SCALE),
        -SCALE,
    ).normalize()
}

/// Computes the packed color of the pixel at place `index`.
pub fn render_pixel(
    index: usize,
    width: usize,
    height: usize,
    objects: &[Cube],
    camera: &Camera,
    lights: &[Light],
) -> (value: u32)
    requires
        width > 0,
        height > 0,
    ensures
        value == pixel_value(
            index as int,
            width as int,
            height as int,
            objects@,
            *camera,
            lights@,
        ),
{
    let x: usize = index % width;
    let y: usize = index / width;
    let direction: Vec3 = direction_through(x, y, width, height);
    let rotated: Vec3 = camera.basis_change(&direction);
    cast_ray(&camera.eye, &rotated, objects, lights, 0).to_hex()
}

/// Fills the framebuffer with the image of the scene that the camera sees.
///
/// Every pixel is a function of its place, the image size, the camera and
/// the scene alone, so rendering the same scene twice gives the same image.
pub fn render(framebuffer: &mut Framebuffer, objects: &[Cube], camera: &Camera, lights: &[Light])
    requires
        old(framebuffer).wf(),
    ensures
        final(framebuffer).width == old(framebuffer).width,
        final(framebuffer).height == old(framebuffer).height,
        is_image_of(*final(framebuffer), objects@, *camera, lights@),
{
    let width: usize = framebuffer.width;
    let height: usize = framebuffer.height;
    let count: usize = framebuffer.buffer.len();
    let mut index: usize = 0;
    while index < count
        invariant
            index <= count,
            count == framebuffer.buffer@.len(),
            count == width * height,
            framebuffer.width == width,
            framebuffer.height == height,
            forall|i: int|
                0 <= i < index ==> #[trigger] framebuffer.buffer@[i] == pixel_value(
                    i,
                    width as int,
                    height as int,
                    objects@,
                    *camera,
                    lights@,
                ),
        decreases count - index,
    {
        assert(width > 0 && height > 0) by (nonlinear_arith)
            requires
                width * height > 0,
                width >= 0,
                height >= 0,
        ;
        let value: u32 = render_pixel(index, width, height, objects, camera, lights);
        framebuffer.buffer.set(index, value);
        index = index + 1;
    }
}

} // verus!
