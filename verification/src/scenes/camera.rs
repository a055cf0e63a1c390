//! The camera: from pixels to rays, and from a scene to a picture.
use super::world::{sees, World};
use crate::primitives::canvas::Canvas;
use crate::primitives::pixel::{Color, Pixel};
use crate::primitives::ray::Ray;
use crate::primitives::scalar::{obeys_field, total_field, Elementary, Scalar};
use crate::primitives::tmatrix::amath::{det_is_zero, invert_req, obeys_ring};
use crate::primitives::tmatrix::arithmetic::{
    div_scalar, is_norm_sq, is_product, mat_mul, sub_elems,
};
use crate::primitives::tmatrix::prelude::{one, spec_one, zero};
use crate::primitives::transformation_matrices::{lemma_dims_4, Matrix4x4};
use crate::primitives::vector::{point, Vec4D};
use crate::shading::material::{ratio, spec_ratio};
use crate::shapes::prelude::Placement;
use crate::shapes::render::is_unit_of;
use crate::shapes::sphere::origin_seq;
use std::ops::Neg;
use vstd::prelude::*;
use vstd::std_specs::cmp::{PartialEqSpec, PartialOrdIs};
use vstd::std_specs::convert::FromSpec;
use vstd::std_specs::ops::{AddSpec, DivSpec, MulSpec, NegSpec, SubSpec};

verus! {

/// How often a ray may be mirrored or refracted on its way.
pub const MAXIMUM_REFLECTION_RECURSION_DEPTH: usize = 5;

/// Virtual camera
/// Virtual canvas is one unit in front of camera
#[derive(Debug, Clone)]
pub struct Camera<T> {
    pub height: usize,
    pub width: usize,
    /// Field of view in rad
    pub fov: T,
    /// Orientation of world relative to camera described as transformation
    /// matrix, with its inverse
    pub placement: Placement<T>,
    /// World space size of pixels of canvas
    pub pixel_size: T,
    pub half_width: T,
    pub half_height: T,
}

/// The half extents `(half_width, half_height)` of the canvas one unit in
/// front of the camera, for the tangent `half_view` of half the field of
/// view: the longer side gets `half_view`, the shorter one as much less as
/// the aspect ratio says.
pub open spec fn half_extents<T: Scalar>(half_view: T, aspect: T) -> (T, T) {
    if aspect.is_ge(&spec_one::<T>()) {
        (half_view, half_view.div_spec(aspect))
    } else {
        (half_view.mul_spec(aspect), half_view)
    }
}

/// The half extents of the canvas one unit in front of the camera.
pub fn half_extents_of<T: Scalar>(half_view: T, aspect: T) -> (r: (T, T))
    requires
        total_field::<T>(),
    ensures
        obeys_field::<T>() ==> r == half_extents(half_view, aspect),
{
    let o: T = one();
    if aspect >= o {
        (half_view, half_view / aspect)
    } else {
        (half_view * aspect, half_view)
    }
}

/// The rows `[from, to)` of a picture of the given height that the `k`th
/// of the workers renders, where each worker but the last gets
/// `height / workers` rows and the last gets the rest.
pub open spec fn chunk(height: int, workers: int, k: int) -> (int, int) {
    let size = height / workers;
    (
        size * k,
        if size * k + size <= height {
            size * k + size
        } else {
            height
        },
    )
}

/// How many chunks of `size` rows it takes to cover `height` rows.
pub open spec fn chunk_count(height: int, size: int) -> int {
    if height % size == 0 {
        height / size
    } else {
        height / size + 1
    }
}

/// The rows of a picture, dealt out to workers in contiguous chunks of
/// `height / workers` rows; a last, shorter chunk takes what is left.
pub fn row_chunks(height: usize, workers: usize) -> (r: Vec<(usize, usize)>)
    requires
        0 < workers <= height,
    ensures
        r@.len() == chunk_count(height as int, height as int / workers as int),
        forall|k: int|
            0 <= k < r@.len() ==> (#[trigger] r@[k]).0 == chunk(
                height as int,
                workers as int,
                k,
            ).0 && r@[k].1 == chunk(height as int, workers as int, k).1,
        forall|k: int| 0 <= k < r@.len() ==> (#[trigger] r@[k]).0 < r@[k].1 <= height,
        r@.len() > 0 ==> r@[0].0 == 0 && r@[r@.len() - 1].1 == height,
        forall|k: int| 0 < k < r@.len() ==> (#[trigger] r@[k]).0 == r@[k - 1].1,
{
    let size = height / workers;
    assert(size >= 1) by (nonlinear_arith)
        requires
            size == height / workers,
            0 < workers <= height,
    ;
    let mut out: Vec<(usize, usize)> = Vec::new();
    let mut from: usize = 0;
    while from < height
        invariant
            size >= 1,
            size == height as int / workers as int,
            from <= height,
            from < height ==> from == size * out@.len(),
            out@.len() == 0 ==> from == 0,
            forall|k: int|
                0 <= k < out@.len() ==> (#[trigger] out@[k]).0 == chunk(
                    height as int,
                    workers as int,
                    k,
                ).0 && out@[k].1 == chunk(height as int, workers as int, k).1,
            forall|k: int| 0 <= k < out@.len() ==> (#[trigger] out@[k]).0 < out@[k].1 <= height,
            out@.len() > 0 ==> out@[0].0 == 0 && out@[out@.len() - 1].1 == from,
            forall|k: int| 0 < k < out@.len() ==> (#[trigger] out@[k]).0 == out@[k - 1].1,
            from == height ==> out@.len() == chunk_count(height as int, size as int),
        decreases height - from,
    {
        let to = if size <= height - from {
            from + size
        } else {
            height
        };
        let ghost n = out@.len() as int;
        proof {
            assert(size * (n + 1) == size * n + size) by (nonlinear_arith);
            if to == height {
                if size * n + size == height {
                    vstd::arithmetic::div_mod::lemma_fundamental_div_mod_converse(
                        height as int,
                        size as int,
                        n + 1,
                        0,
                    );
                } else {
                    // a last, shorter chunk
                    vstd::arithmetic::div_mod::lemma_fundamental_div_mod_converse(
                        height as int,
                        size as int,
                        n,
                        height - from,
                    );
                }
            }
        }
        out.push((from, to));
        from = to;
    }
    out
}

impl<T: Scalar> Camera<T> {
    /// The view transformation is well formed.
    pub open spec fn wf(&self) -> bool {
        self.placement.wf()
    }

    /// A camera for pictures of the given size with the given field of
    /// view in radians; none where the view transformation has no inverse.
    pub fn new(width: usize, height: usize, fov: T, transform: Matrix4x4<T>) -> (r: Option<Self>)
        requires
            total_field::<T>(),
            transform.wf(),
        ensures
            obeys_ring::<T>() && T::obeys_eq_spec() ==> (r is None <==> det_is_zero(transform@)),
            r matches Some(c) ==> {
                &&& c.wf()
                &&& c.width == width
                &&& c.height == height
                &&& c.fov == fov
                &&& c.placement.transform == transform
                &&& obeys_field::<T>() ==> exists|half_view: T, w: T, h: T| #[trigger]
                    has_view(fov, width, height, half_view, w, h, c.half_width, c.half_height)
                        && c.pixel_size == c.half_width.mul_spec(T::from_spec(2i8)).div_spec(w)
            },
    {
        let half_view = (fov / T::from(2i8)).tan();
        let w = T::from_usize(width);
        let h = T::from_usize(height);
        let aspect = w / h;
        let (half_width, half_height) = half_extents_of(half_view, aspect);
        let pixel_size = (half_width * T::from(2i8)) / w;
        match Placement::new(transform) {
            Some(placement) => {
                let c = Camera {
                    width,
                    height,
                    fov,
                    placement,
                    pixel_size,
                    half_width,
                    half_height,
                };
                proof {
                    if obeys_field::<T>() {
                        assert(has_view(
                            fov,
                            width,
                            height,
                            half_view,
                            w,
                            h,
                            c.half_width,
                            c.half_height,
                        ) && c.pixel_size == c.half_width.mul_spec(T::from_spec(2i8)).div_spec(w));
                    }
                }
                Some(c)
            },
            None => None,
        }
    }

    pub fn transform(&self) -> (r: &Matrix4x4<T>)
        ensures
            r == &self.placement.transform,
    {
        &self.placement.transform
    }

    /// The width of the picture by its height.
    pub fn aspect_ratio(&self) -> (r: T)
        requires
            total_field::<T>(),
        ensures
            T::obeys_div_spec() ==> exists|w: T, h: T|
                #![trigger call_ensures(T::from_usize, (self.width,), w), call_ensures(T::from_usize, (self.height,), h)]
                call_ensures(T::from_usize, (self.width,), w) && call_ensures(
                    T::from_usize,
                    (self.height,),
                    h,
                ) && r == w.div_spec(h),
    {
        let w = T::from_usize(self.width);
        let h = T::from_usize(self.height);
        let r = w / h;
        proof {
            if T::obeys_div_spec() {
                assert(call_ensures(T::from_usize, (self.width,), w) && call_ensures(
                    T::from_usize,
                    (self.height,),
                    h,
                ) && r == w.div_spec(h));
            }
        }
        r
    }

    pub fn height(&self) -> (r: usize)
        ensures
            r == self.height,
    {
        self.height
    }

    pub fn width(&self) -> (r: usize)
        ensures
            r == self.width,
    {
        self.width
    }

    pub fn fov(&self) -> (r: T)
        ensures
            r == self.fov,
    {
        self.fov
    }

    pub fn pixel_size(&self) -> (r: T)
        ensures
            r == self.pixel_size,
    {
        self.pixel_size
    }

    /// Calculate a ray through the coordinate pair (x, y) from the camera through the canvas:
    /// from the camera's place in the world towards the middle of the
    /// pixel.
    pub fn ray_for_pixel(&self, x: usize, y: usize) -> (r: Ray<T>)
        requires
            total_field::<T>(),
            self.wf(),
        ensures
            r.wf(),
            obeys_field::<T>() ==> is_ray_for_pixel(*self, x, y, r.origin@, r.direction@),
    {
        proof {
            lemma_dims_4();
        }
        let half: T = ratio(1, 2);
        let o: T = one();
        let fx = T::from_usize(x);
        let fy = T::from_usize(y);
        let x_offset = (fx + half) * self.pixel_size;
        let y_offset = (fy + half) * self.pixel_size;
        let world_x = self.half_width - x_offset;
        let world_y = self.half_height - y_offset;
        let inverse = &self.placement.inverse;
        let on_canvas = point(world_x, world_y, o.neg());
        let pixel = mat_mul(inverse, &on_canvas);
        let centre: Vec4D<T> = Vec4D::origin();
        let origin = mat_mul(inverse, &centre);
        let towards = &pixel - &origin;
        let ghost aim = towards@;
        let direction = towards.unit();
        let r = Ray::new(origin, direction);
        proof {
            if obeys_field::<T>() {
                let (s, m): (T, T) = choose|s: T, m: T|
                    {
                        &&& is_norm_sq(aim, s)
                        &&& call_ensures(T::sqrt, (s,), m)
                        &&& T::obeys_div_spec() ==> r.direction@ == div_scalar(aim, m)
                    };
                assert(is_norm_sq(aim, s) && call_ensures(T::sqrt, (s,), m) && r.direction@
                    == div_scalar(aim, m));
                assert(is_unit_of(aim, r.direction@));
                assert(on_canvas@ =~= canvas_point(*self, fx, fy));
                assert(call_ensures(T::from_usize, (x,), fx) && call_ensures(
                    T::from_usize,
                    (y,),
                    fy,
                ) && is_product(pixel@, self.placement.inverse@, canvas_point(*self, fx, fy), 4, 4, 1)
                    && is_product(r.origin@, self.placement.inverse@, origin_seq::<T>(), 4, 4, 1)
                    && is_unit_of(sub_elems(pixel@, r.origin@), r.direction@));
            }
        }
        r
    }

    /// The colours of the pixels of the rows `[from, to)`, row after row,
    /// each with its column and its row.
    pub fn render_rows(&self, world: &World<T>, from: usize, to: usize) -> (r: Vec<
        (usize, usize, Color<T>),
    >)
        requires
            total_field::<T>(),
            self.wf(),
            world.wf(),
            world.lights@.len() > 0,
            from <= to,
            self.width * (to - from) <= usize::MAX,
        ensures
            r@.len() == self.width * (to - from),
            forall|k: int|
                0 <= k < r@.len() ==> (#[trigger] r@[k]).0 == k % (self.width as int) && r@[k].1
                    == from + k / (self.width as int),
            obeys_field::<T>() && T::obeys_eq_spec() ==> forall|k: int|
                0 <= k < r@.len() ==> pixel_sees(
                    *self,
                    *world,
                    (#[trigger] r@[k]).0,
                    r@[k].1,
                    r@[k].2,
                ),
    {
        let mut out: Vec<(usize, usize, Color<T>)> = Vec::new();
        let ghost exact = obeys_field::<T>() && T::obeys_eq_spec();
        let mut y: usize = from;
        while y < to
            invariant
                total_field::<T>(),
                self.wf(),
                world.wf(),
                world.lights@.len() > 0,
                from <= y <= to,
                exact == (obeys_field::<T>() && T::obeys_eq_spec()),
                out@.len() == self.width * (y - from),
                forall|k: int|
                    0 <= k < out@.len() ==> (#[trigger] out@[k]).0 == k % (self.width as int)
                        && out@[k].1 == from + k / (self.width as int),
                exact ==> forall|k: int|
                    0 <= k < out@.len() ==> pixel_sees(
                        *self,
                        *world,
                        (#[trigger] out@[k]).0,
                        out@[k].1,
                        out@[k].2,
                    ),
            decreases to - y,
        {
            let mut x: usize = 0;
            while x < self.width
                invariant
                    total_field::<T>(),
                    self.wf(),
                    world.wf(),
                    world.lights@.len() > 0,
                    from <= y < to,
                    x <= self.width,
                    exact == (obeys_field::<T>() && T::obeys_eq_spec()),
                    out@.len() == self.width * (y - from) + x,
                    forall|k: int|
                        0 <= k < out@.len() ==> (#[trigger] out@[k]).0 == k % (self.width as int)
                            && out@[k].1 == from + k / (self.width as int),
                    exact ==> forall|k: int|
                        0 <= k < out@.len() ==> pixel_sees(
                            *self,
                            *world,
                            (#[trigger] out@[k]).0,
                            out@[k].1,
                            out@[k].2,
                        ),
                decreases self.width - x,
            {
                let ray = self.ray_for_pixel(x, y);
                let color = world.color_at(&ray, MAXIMUM_REFLECTION_RECURSION_DEPTH);
                proof {
                    let w = self.width as int;
                    assert(w * (y - from) == (y - from) * w) by (nonlinear_arith);
                    vstd::arithmetic::div_mod::lemma_fundamental_div_mod_converse(
                        out@.len() as int,
                        w,
                        y - from,
                        x as int,
                    );
                    if exact {
                        assert(is_ray_for_pixel(*self, x, y, ray.origin@, ray.direction@) && sees(
                            world.objects@,
                            world.lights@,
                            ray.origin@,
                            ray.direction@,
                            MAXIMUM_REFLECTION_RECURSION_DEPTH as nat,
                            color,
                        ));
                        assert(pixel_sees(*self, *world, x, y, color));
                    }
                }
                out.push((x, y, color));
                x += 1;
            }
            proof {
                assert(self.width * (y + 1 - from) == self.width * (y - from) + self.width)
                    by (nonlinear_arith);
            }
            y += 1;
        }
        out
    }

    /// The picture of the scene that the camera sees.
    pub fn render(&self, world: &World<T>) -> (canvas: Canvas<T>)
        requires
            total_field::<T>(),
            self.wf(),
            world.wf(),
            world.lights@.len() > 0,
            self.width * self.height <= usize::MAX,
        ensures
            canvas.wf(),
            canvas.width == self.width,
            canvas.height == self.height,
            obeys_field::<T>() && T::obeys_eq_spec() ==> forall|x: int, y: int|
                0 <= x < self.width && 0 <= y < self.height ==> pixel_sees(
                    *self,
                    *world,
                    x as usize,
                    y as usize,
                    #[trigger] canvas.at(y, x),
                ),
    {
        let mut canvas = Canvas::new(self.width, self.height);
        let pixels = self.render_rows(world, 0, self.height);
        let ghost w = self.width as int;
        let mut k: usize = 0;
        while k < pixels.len()
            invariant
                canvas.wf(),
                canvas.width == self.width,
                canvas.height == self.height,
                w == self.width,
                k <= pixels@.len(),
                pixels@.len() == self.width * self.height,
                forall|j: int|
                    0 <= j < pixels@.len() ==> (#[trigger] pixels@[j]).0 == j % w && pixels@[j].1
                        == j / w,
                forall|j: int| 0 <= j < k ==> #[trigger] canvas.data@[j] == pixels@[j].2,
            decreases pixels@.len() - k,
        {
            let (x, y, color) = pixels[k];
            proof {
                assert(w > 0) by (nonlinear_arith)
                    requires
                        k < w * self.height,
                        w >= 0,
                ;
                vstd::arithmetic::div_mod::lemma_fundamental_div_mod(k as int, w);
                vstd::arithmetic::div_mod::lemma_mod_bound(k as int, w);
                assert(w * (k as int / w) == (k as int / w) * w) by (nonlinear_arith);
                assert(k as int / w < self.height) by (nonlinear_arith)
                    requires
                        k < w * self.height,
                        w * (k as int / w) + k as int % w == k,
                        0 <= k as int % w,
                        w > 0,
                ;
            }
            let ghost before = canvas.data@;
            let drawn = canvas.draw(x, y, color);
            assert(drawn is Ok);
            assert(canvas.data@ == before.update(k as int, color));
            k += 1;
        }
        proof {
            if obeys_field::<T>() && T::obeys_eq_spec() {
                assert forall|x: int, y: int| 0 <= x < self.width && 0 <= y < self.height implies pixel_sees(
                    *self,
                    *world,
                    x as usize,
                    y as usize,
                    #[trigger] canvas.at(y, x),
                ) by {
                    let j = w * y + x;
                    crate::primitives::tmatrix::prelude::lemma_row_major_bound(
                        self.height as int,
                        w,
                        y,
                        x,
                    );
                    assert(w * self.height == self.height * w) by (nonlinear_arith);
                    assert(w * y == y * w) by (nonlinear_arith);
                    vstd::arithmetic::div_mod::lemma_fundamental_div_mod_converse(j, w, y, x);
                    assert(pixels@[j].0 == x && pixels@[j].1 == y);
                    assert(canvas.data@[j] == pixels@[j].2);
                }
            }
        }
        canvas
    }
}

/// The point on the canvas one unit in front of the camera, in the space of
/// the camera, through which it sees the pixel whose column and row are, as
/// scalars, `fx` and `fy`: the middle of the pixel.
pub open spec fn canvas_point<T: Scalar>(camera: Camera<T>, fx: T, fy: T) -> Seq<T> {
    let half = spec_ratio::<T>(1, 2);
    seq![
        camera.half_width.sub_spec(fx.add_spec(half).mul_spec(camera.pixel_size)),
        camera.half_height.sub_spec(fy.add_spec(half).mul_spec(camera.pixel_size)),
        spec_one::<T>().neg_spec(),
        spec_one::<T>(),
    ]
}

/// `origin` and `direction` make the ray through the pixel in column `x`
/// and row `y`: from the camera's place in the world, which is where the
/// inverse of the view transformation takes the origin, towards where it
/// takes the middle of the pixel on the canvas; the direction has length one.
pub open spec fn is_ray_for_pixel<T: Scalar>(
    camera: Camera<T>,
    x: usize,
    y: usize,
    origin: Seq<T>,
    direction: Seq<T>,
) -> bool {
    exists|fx: T, fy: T, pixel: Seq<T>|
        {
            &&& call_ensures(T::from_usize, (x,), fx)
            &&& call_ensures(T::from_usize, (y,), fy)
            &&& #[trigger] is_product(
                pixel,
                camera.placement.inverse@,
                canvas_point(camera, fx, fy),
                4,
                4,
                1,
            )
            &&& is_product(origin, camera.placement.inverse@, origin_seq::<T>(), 4, 4, 1)
            &&& is_unit_of(sub_elems(pixel, origin), direction)
        }
}

/// `c` is a colour that the camera sees through the pixel in column `x`
/// and row `y`: a colour that the ray through the pixel sees in the scene.
pub open spec fn pixel_sees<T: Scalar>(
    camera: Camera<T>,
    world: World<T>,
    x: usize,
    y: usize,
    c: Color<T>,
) -> bool {
    exists|origin: Seq<T>, direction: Seq<T>| #[trigger]
        is_ray_for_pixel(camera, x, y, origin, direction) && sees(
            world.objects@,
            world.lights@,
            origin,
            direction,
            MAXIMUM_REFLECTION_RECURSION_DEPTH as nat,
            c,
        )
}

/// `half_view` is what the scalar's `tan` returned for half the field of
/// view, `w` and `h` are the width and the height as scalars, and
/// `(half_width, half_height)` are the half extents of the canvas.
pub open spec fn has_view<T: Scalar>(
    fov: T,
    width: usize,
    height: usize,
    half_view: T,
    w: T,
    h: T,
    half_width: T,
    half_height: T,
) -> bool {
    &&& call_ensures(T::tan, (fov.div_spec(T::from_spec(2i8)),), half_view)
    &&& call_ensures(T::from_usize, (width,), w)
    &&& call_ensures(T::from_usize, (height,), h)
    &&& (half_width, half_height) == half_extents(half_view, w.div_spec(h))
}

} // verus!
