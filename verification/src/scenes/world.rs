//! The objects and lights of a scene, and the colour that a ray sees.
use crate::primitives::pixel::{max_spec, Color, Pixel};
use crate::primitives::ray::Ray;
use crate::primitives::scalar::{obeys_field, obeys_order, total_field, Elementary, Scalar};
use crate::primitives::tmatrix::arithmetic::{
    div_scalar, identity_seq, is_norm_sq, lemma_identity_seq, mul_scalar, sub_elems,
};
use crate::primitives::tmatrix::amath::det_is_zero;
use crate::primitives::transformation_matrices::{scaling_seq, Matrix4x4};
use crate::primitives::tmatrix::prelude::{one, spec_one, spec_zero, zero};
use crate::primitives::tmatrix::Matrix;
use crate::primitives::transformation_matrices::lemma_dims_4;
use crate::primitives::vector::{point, scalar_prod_of, scalar_prod_seq, Vec4D};
use crate::shading::lights::{is_lighting, is_surface_color, PointLight};
use crate::shading::material::{ratio, spec_ratio, Material};
use crate::shapes::intersection::{
    ascending, first_hit, strict_order_on, views, Intersection, Intersections,
};
use crate::shapes::render::{is_unit_of, meets_shape};
use crate::shapes::precomp::{is_precomp, names_objects, snell_sin2, PreComp};
use crate::shapes::prelude::{Shape, ShapeKind};
use vstd::prelude::*;
use vstd::std_specs::cmp::{PartialEqSpec, PartialOrdIs};
use vstd::std_specs::convert::FromSpec;
use vstd::std_specs::ops::{DivSpec, MulSpec, SubSpec};

verus! {

pub struct World<T> {
    pub objects: Vec<Shape<T>>,
    pub lights: Vec<PointLight<T>>,
}

/// The colour that is in each channel the brightest of the given ones.
pub open spec fn lighten_all<T: Scalar>(cs: Seq<Color<T>>) -> Color<T>
    decreases cs.len(),
{
    if cs.len() <= 1 {
        cs[0]
    } else {
        let last = cs.last();
        let rest = lighten_all(cs.drop_last());
        Pixel {
            r: max_spec(last.r, rest.r),
            g: max_spec(last.g, rest.g),
            b: max_spec(last.b, rest.b),
        }
    }
}

/// The light bends so much on its way out of the denser medium that none
/// leaves it: `(n1 / n2)² (1 - cos²) > 1`, with `cos` the cosine of the
/// angle between the eye and the normal.
pub open spec fn reflects_totally<T: Scalar>(n1: T, n2: T, cos_i: T) -> bool {
    snell_sin2(n1, n2, cos_i).is_gt(&spec_one::<T>())
}

/// The square of the sine of the angle of the refracted ray.
pub fn sin2_t_of<T: Scalar>(n1: T, n2: T, cos_i: T) -> (r: T)
    requires
        total_field::<T>(),
    ensures
        obeys_field::<T>() ==> r == snell_sin2(n1, n2, cos_i),
{
    let n_ratio = n1 / n2;
    let o: T = one();
    n_ratio * n_ratio * (o - cos_i * cos_i)
}

/// What the first `k` of the given lists hold, one list after the other;
/// no list counts as an empty one.
pub open spec fn gathered<T>(parts: Seq<Option<Seq<Intersection<T>>>>, k: int) -> Seq<
    Intersection<T>,
>
    decreases k,
{
    if k <= 0 {
        Seq::empty()
    } else {
        gathered(parts, k - 1) + match parts[k - 1] {
            Some(xs) => xs,
            None => Seq::empty(),
        }
    }
}

/// `parts[k]` is where the ray meets the `k`th object, for each object.
pub open spec fn meets_each<T: Scalar>(
    objects: Seq<Shape<T>>,
    origin: Seq<T>,
    direction: Seq<T>,
    parts: Seq<Option<Seq<Intersection<T>>>>,
) -> bool {
    &&& parts.len() == objects.len()
    &&& forall|k: int|
        0 <= k < objects.len() ==> meets_shape(
            objects[k].kind,
            objects[k].placement.inverse@,
            origin,
            direction,
            k as usize,
            #[trigger] parts[k],
        )
}

/// `xs` are the intersections of a ray with the objects of a scene: what
/// the intersections with each object hold, in some order.
pub open spec fn meets_world<T: Scalar>(
    objects: Seq<Shape<T>>,
    origin: Seq<T>,
    direction: Seq<T>,
    xs: Seq<Intersection<T>>,
) -> bool {
    exists|parts: Seq<Option<Seq<Intersection<T>>>>| #[trigger]
        meets_each(objects, origin, direction, parts) && xs.to_multiset() == gathered(
            parts,
            parts.len() as int,
        ).to_multiset()
}

/// `b` says whether a point is in the shadow of what stands between it and a
/// light: whether the ray from the point towards the light has a hit that is
/// nearer than the light.
pub open spec fn is_in_shadow<T: Scalar>(
    objects: Seq<Shape<T>>,
    light: Seq<T>,
    point: Seq<T>,
    b: bool,
) -> bool {
    exists|s: T, distance: T, direction: Seq<T>, xs: Seq<Intersection<T>>|
        {
            &&& #[trigger] is_norm_sq(sub_elems(light, point), s)
            &&& #[trigger] call_ensures(T::sqrt, (s,), distance)
            &&& #[trigger] is_unit_of(sub_elems(light, point), direction)
            &&& #[trigger] meets_world(objects, point, direction, xs)
            &&& b == match first_hit(xs, xs.len() as int) {
                Some(i) => xs[i].t.is_lt(&distance),
                None => false,
            }
        }
}

/// `c` is the colour that one light gives a hit: the light that the
/// surface sends to the eye, plus what it mirrors, plus what shines through
/// it.
pub open spec fn is_lit_by<T: Scalar>(
    object: Shape<T>,
    light: PointLight<T>,
    comp: PreComp<T>,
    in_shadow: bool,
    reflected: Color<T>,
    refracted: Color<T>,
    c: Color<T>,
) -> bool {
    exists|color: Color<T>, surface: Color<T>|
        {
            &&& #[trigger] is_lighting(color, light.intensity, object.material, in_shadow, surface)
            &&& is_surface_color(object.material, object.placement.inverse@, comp.point@, color)
            &&& c == Pixel::plus(Pixel::plus(surface, reflected), refracted)
        }
}

/// The direction of the ray that passes through a surface, by Snell's law,
/// given the cosine `cos_t` of the angle of the refracted ray:
/// `normal * (n cos_i - cos_t) - eye * n` with `n = n1 / n2` and `cos_i`
/// the cosine of the angle between the eye and the normal.
pub open spec fn refracted_direction<T: Scalar>(comp: PreComp<T>, cos_t: T) -> Seq<T> {
    let n_ratio = comp.n1.div_spec(comp.n2);
    let cos_i = scalar_prod_seq(comp.eye@, comp.normal@);
    sub_elems(
        mul_scalar(comp.normal@, n_ratio.mul_spec(cos_i).sub_spec(cos_t)),
        mul_scalar(comp.eye@, n_ratio),
    )
}

/// `c` is a colour that a ray sees in a scene when it may still be mirrored
/// or refracted `remaining` times: black if it meets nothing, else the colour
/// of its hit.
///
/// "A colour" and not "the colour": the relation leaves open what the
/// scalar's elementary functions return.
pub open spec fn sees<T: Scalar>(
    objects: Seq<Shape<T>>,
    lights: Seq<PointLight<T>>,
    origin: Seq<T>,
    direction: Seq<T>,
    remaining: nat,
    c: Color<T>,
) -> bool
    decreases remaining, 3nat,
{
    exists|xs: Seq<Intersection<T>>| #[trigger]
        meets_world(objects, origin, direction, xs) && names_objects(xs, objects.len() as int)
            && match first_hit(xs, xs.len() as int) {
            None => c == Pixel::<T>::spec_black(),
            Some(i) => sees_hit(objects, lights, origin, direction, xs, i, remaining, c),
        }
}

/// `c` is a colour of the hit with the index `hit` among the intersections
/// `xs` of a ray: a colour of the hit, given what shading needs to know of
/// it.
pub open spec fn sees_hit<T: Scalar>(
    objects: Seq<Shape<T>>,
    lights: Seq<PointLight<T>>,
    origin: Seq<T>,
    direction: Seq<T>,
    xs: Seq<Intersection<T>>,
    hit: int,
    remaining: nat,
    c: Color<T>,
) -> bool
    decreases remaining, 2nat,
{
    exists|comp: PreComp<T>| #[trigger]
        is_precomp(objects, xs, hit, origin, direction, comp) && shades(
            objects,
            lights,
            comp,
            remaining,
            c,
        )
}

/// `c` is a colour of a hit: per light, the light that the surface sends to
/// the eye plus what it mirrors and what shines through it; of several
/// lights, in each channel the brightest.
pub open spec fn shades<T: Scalar>(
    objects: Seq<Shape<T>>,
    lights: Seq<PointLight<T>>,
    comp: PreComp<T>,
    remaining: nat,
    c: Color<T>,
) -> bool
    decreases remaining, 1nat,
{
    exists|cs: Seq<Color<T>>, shadows: Seq<bool>, reflected: Color<T>, refracted: Color<T>|
        {
            &&& cs.len() == lights.len()
            &&& shadows.len() == lights.len()
            &&& mirrors(objects, lights, comp, remaining, reflected)
            &&& passes(objects, lights, comp, remaining, refracted)
            &&& #[trigger] lit_by_each(objects, lights, comp, shadows, reflected, refracted, cs)
            &&& c == lighten_all(cs)
        }
}

/// Per light, `shadows` says whether the hit is in its shadow, and `cs`
/// holds the colour that it gives the hit.
pub open spec fn lit_by_each<T: Scalar>(
    objects: Seq<Shape<T>>,
    lights: Seq<PointLight<T>>,
    comp: PreComp<T>,
    shadows: Seq<bool>,
    reflected: Color<T>,
    refracted: Color<T>,
    cs: Seq<Color<T>>,
) -> bool {
    forall|k: int|
        0 <= k < lights.len() ==> is_in_shadow(
            objects,
            lights[k].position@,
            comp.over_point@,
            #[trigger] shadows[k],
        ) && is_lit_by(
            objects[comp.object as int],
            lights[k],
            comp,
            shadows[k],
            reflected,
            refracted,
            #[trigger] cs[k],
        )
}

/// `c` is what a surface mirrors: black if no recursion is left or if the
/// material does not mirror, else a colour that the mirrored ray sees, times
/// the material's reflectiveness.
pub open spec fn mirrors<T: Scalar>(
    objects: Seq<Shape<T>>,
    lights: Seq<PointLight<T>>,
    comp: PreComp<T>,
    remaining: nat,
    c: Color<T>,
) -> bool
    decreases remaining, 0nat,
{
    let reflectiveness = objects[comp.object as int].material.reflectiveness;
    if remaining == 0 || reflectiveness.eq_spec(&spec_zero::<T>()) {
        c == Pixel::<T>::spec_black()
    } else {
        exists|seen: Color<T>|
            sees(
                objects,
                lights,
                comp.over_point@,
                comp.reflection@,
                (remaining - 1) as nat,
                seen,
            ) && c == #[trigger] Pixel::scaled(seen, reflectiveness)
    }
}

/// `c` is what shines through a surface: black if no recursion is left, if
/// the material is opaque or if the light is reflected totally; else a
/// colour that the refracted ray sees, times the material's transparency.
pub open spec fn passes<T: Scalar>(
    objects: Seq<Shape<T>>,
    lights: Seq<PointLight<T>>,
    comp: PreComp<T>,
    remaining: nat,
    c: Color<T>,
) -> bool
    decreases remaining, 0nat,
{
    let transparency = objects[comp.object as int].material.transparency;
    let cos_i = scalar_prod_seq(comp.eye@, comp.normal@);
    if remaining == 0 || transparency.eq_spec(&spec_zero::<T>()) || reflects_totally(
        comp.n1,
        comp.n2,
        cos_i,
    ) {
        c == Pixel::<T>::spec_black()
    } else {
        exists|cos_t: T, seen: Color<T>|
            {
                &&& #[trigger] call_ensures(
                    T::sqrt,
                    (spec_one::<T>().sub_spec(snell_sin2(comp.n1, comp.n2, cos_i)),),
                    cos_t,
                )
                &&& sees(
                    objects,
                    lights,
                    comp.under_point@,
                    refracted_direction(comp, cos_t),
                    (remaining - 1) as nat,
                    seen,
                )
                &&& c == #[trigger] Pixel::scaled(seen, transparency)
            }
    }
}

/// The scene is that of two spheres around the origin: the outer one of a
/// greenish material and of radius one, the inner one matte white and half
/// as large; with one white light at `(-10, 10, -10)`.
pub open spec fn is_default_scene<T: Scalar>(w: World<T>) -> bool {
    let outer = w.objects@[0];
    let inner = w.objects@[1];
    let light = w.lights@[0];
    let half = spec_ratio::<T>(1, 2);
    &&& outer.material == (Material {
        color: Pixel { r: spec_ratio::<T>(4, 5), g: spec_one::<T>(), b: spec_ratio::<T>(3, 5) },
        diffuse: spec_ratio::<T>(7, 10),
        specular: spec_ratio::<T>(1, 5),
        ..Material::<T>::spec_default()
    })
    &&& outer.placement.transform@ == identity_seq::<T>()
    &&& inner.material == Material::<T>::spec_default()
    &&& inner.placement.transform@ == scaling_seq(half, half, half)
    &&& light.intensity == Pixel::<T>::spec_white()
    &&& light.position@ == seq![
        T::from_spec(-10i8),
        T::from_spec(10i8),
        T::from_spec(-10i8),
        spec_one::<T>(),
    ]
}

impl<T: Scalar> World<T> {
    /// Every object and every light is well formed.
    pub open spec fn wf(&self) -> bool {
        &&& forall|k: int| 0 <= k < self.objects@.len() ==> (#[trigger] self.objects@[k]).wf()
        &&& forall|k: int| 0 <= k < self.lights@.len() ==> (#[trigger] self.lights@[k]).wf()
    }

    pub fn new(objects: Vec<Shape<T>>, lights: Vec<PointLight<T>>) -> (w: Self)
        ensures
            w.objects == objects,
            w.lights == lights,
    {
        World { objects, lights }
    }

    pub fn new_empty() -> (w: Self)
        ensures
            w.wf(),
            w.objects@.len() == 0,
            w.lights@.len() == 0,
    {
        Self::new(Vec::new(), Vec::new())
    }

    /// The scene of two spheres around the origin, the inner one half as
    /// large, with one white light up and to the left behind the eye; none
    /// exactly where the determinant of the identity matrix or of the
    /// scaling by a half, worked out with the scalar's operators, counts as
    /// zero.
    pub fn default() -> (r: Option<Self>)
        requires
            total_field::<T>(),
        ensures
            obeys_field::<T>() && T::obeys_eq_spec() ==> (r is None <==> det_is_zero(
                identity_seq::<T>(),
            ) || det_is_zero(
                scaling_seq(spec_ratio::<T>(1, 2), spec_ratio::<T>(1, 2), spec_ratio::<T>(1, 2)),
            )),
            r matches Some(w) ==> w.wf() && w.objects@.len() == 2 && w.lights@.len() == 1
                && w.objects@[0].kind == ShapeKind::Sphere && w.objects@[1].kind
                == ShapeKind::Sphere && (obeys_field::<T>() ==> is_default_scene(w)),
    {
        proof {
            lemma_dims_4();
        }
        let light = PointLight::new(
            point(T::from(-10i8), T::from(10i8), T::from(-10i8)),
            Color::white(),
        );
        let unplaced: Matrix4x4<T> = Matrix::identity();
        proof {
            if T::obeys_from_spec() {
                lemma_identity_seq(unplaced@);
            }
        }
        let outer = Shape::new(
            ShapeKind::Sphere,
            Material::new(
                Color::new_rgb(ratio(4, 5), one(), ratio(3, 5)),
                ratio(1, 10),
                ratio(7, 10),
                ratio(1, 5),
                T::from(100i8) + T::from(100i8),
                zero(),
                zero(),
                one(),
            ),
            unplaced,
        );
        let half: T = ratio(1, 2);
        let inner = Shape::new(
            ShapeKind::Sphere,
            Material::default(),
            Matrix::new_scaling(half, half, half),
        );
        match (outer, inner) {
            (Some(s1), Some(s2)) => {
                let objects = vec![s1, s2];
                let lights = vec![light];
                let w = World::new(objects, lights);
                proof {
                    if obeys_field::<T>() {
                        assert(w.lights@[0].position@ =~= seq![
                            T::from_spec(-10i8),
                            T::from_spec(10i8),
                            T::from_spec(-10i8),
                            spec_one::<T>(),
                        ]);
                        assert(w.objects@[0].material == s1.material);
                        assert(w.objects@[1].material == s2.material);
                    }
                }
                Some(w)
            },
            _ => None,
        }
    }

    /// Find the intersections of a ray with all objects in the scene sorted by their t-value
    pub fn intersect(&self, ray: &Ray<T>) -> (r: Intersections<T>)
        requires
            total_field::<T>(),
            self.wf(),
            ray.wf(),
        ensures
            names_objects(r.is@, self.objects@.len() as int),
            r.is@.len() <= 2 * self.objects@.len(),
            obeys_field::<T>() ==> meets_world(self.objects@, ray.origin@, ray.direction@, r.is@),
            obeys_order::<T>() && (forall|s: Seq<Intersection<T>>| #[trigger] strict_order_on(s))
                ==> ascending(r.is@),
    {
        let mut v: Vec<Intersection<T>> = Vec::new();
        let ghost mut parts: Seq<Option<Seq<Intersection<T>>>> = Seq::empty();
        let mut k: usize = 0;
        while k < self.objects.len()
            invariant
                total_field::<T>(),
                self.wf(),
                ray.wf(),
                k <= self.objects@.len(),
                v@.len() <= 2 * k,
                names_objects(v@, self.objects@.len() as int),
                parts.len() == k,
                v@ == gathered(parts, k as int),
                obeys_field::<T>() ==> forall|j: int|
                    0 <= j < k ==> meets_shape(
                        self.objects@[j].kind,
                        self.objects@[j].placement.inverse@,
                        ray.origin@,
                        ray.direction@,
                        j as usize,
                        #[trigger] parts[j],
                    ),
            decreases self.objects@.len() - k,
        {
            let found = self.objects[k].intersect(k, ray);
            let ghost before = v@;
            let ghost old_parts = parts;
            proof {
                parts = parts.push(views(found));
                lemma_gathered_prefix(old_parts, parts, k as int);
            }
            match found {
                Some(xs) => {
                    let mut i: usize = 0;
                    while i < xs.len()
                        invariant
                            i <= xs.is@.len() <= 2,
                            k < self.objects@.len(),
                            v@.len() <= 2 * k + i,
                            names_objects(v@, self.objects@.len() as int),
                            forall|j: int|
                                0 <= j < xs.is@.len() ==> (#[trigger] xs.is@[j]).object == k,
                            v@ == before + xs.is@.subrange(0, i as int),
                        decreases xs.is@.len() - i,
                    {
                        v.push(xs.is[i]);
                        assert(v@ =~= before + xs.is@.subrange(0, i + 1));
                        i += 1;
                    }
                    assert(xs.is@.subrange(0, i as int) =~= xs.is@);
                },
                None => {
                    assert(v@ =~= before + Seq::<Intersection<T>>::empty());
                },
            }
            k += 1;
        }
        let ghost unsorted = v@;
        let r = Intersections::new(v);
        proof {
            broadcast use vstd::seq_lib::group_to_multiset_ensures;

            assert forall|j: int| 0 <= j < r.is@.len() implies (#[trigger] r.is@[j]).object
                < self.objects@.len() by {
                assert(r.is@.contains(r.is@[j]));
                assert(unsorted.to_multiset().count(r.is@[j]) > 0);
                assert(unsorted.contains(r.is@[j]));
            }
            if obeys_field::<T>() {
                assert(meets_each(self.objects@, ray.origin@, ray.direction@, parts));
            }
        }
        r
    }

    /// Cast a shadow ray to determine whether a point is in shadow: per
    /// light, whether the nearest object in the direction of the light is
    /// nearer than the light.
    pub fn is_shadowed(&self, point: &Vec4D<T>) -> (r: Vec<bool>)
        requires
            total_field::<T>(),
            self.wf(),
            point.wf(),
        ensures
            r@.len() == self.lights@.len(),
            obeys_field::<T>() ==> forall|k: int|
                0 <= k < r@.len() ==> is_in_shadow(
                    self.objects@,
                    self.lights@[k].position@,
                    point@,
                    #[trigger] r@[k],
                ),
    {
        let mut out: Vec<bool> = Vec::new();
        let mut k: usize = 0;
        while k < self.lights.len()
            invariant
                total_field::<T>(),
                self.wf(),
                point.wf(),
                k <= self.lights@.len(),
                out@.len() == k,
                obeys_field::<T>() ==> forall|j: int|
                    0 <= j < out@.len() ==> is_in_shadow(
                        self.objects@,
                        self.lights@[j].position@,
                        point@,
                        #[trigger] out@[j],
                    ),
            decreases self.lights@.len() - k,
        {
            proof {
                lemma_dims_4();
            }
            let v = &self.lights[k].position - point;
            let distance = v.mag();
            let ghost towards = v@;
            let direction = v.unit();
            let ray = Ray::new(point.copied(), direction);
            let is = self.intersect(&ray);
            let shadowed = match is.hit() {
                Some(hit) => hit.t < distance,
                None => false,
            };
            proof {
                if obeys_field::<T>() {
                    let s = choose|s: T| is_norm_sq(towards, s) && call_ensures(
                        T::sqrt,
                        (s,),
                        distance,
                    );
                    let (s2, m): (T, T) = choose|s2: T, m: T|
                        {
                            &&& is_norm_sq(towards, s2)
                            &&& call_ensures(T::sqrt, (s2,), m)
                            &&& T::obeys_div_spec() ==> ray.direction@ == div_scalar(towards, m)
                        };
                    assert(is_norm_sq(towards, s2) && call_ensures(T::sqrt, (s2,), m)
                        && ray.direction@ == div_scalar(towards, m));
                    assert(is_unit_of(towards, ray.direction@));
                    assert(towards == sub_elems(self.lights@[k as int].position@, point@));
                    assert(is_norm_sq(towards, s) && call_ensures(T::sqrt, (s,), distance)
                        && is_unit_of(towards, ray.direction@) && meets_world(
                        self.objects@,
                        point@,
                        ray.direction@,
                        is.is@,
                    ) && shadowed == match first_hit(is.is@, is.is@.len() as int) {
                        Some(i) => is.is@[i].t.is_lt(&distance),
                        None => false,
                    });
                    assert(is_in_shadow(
                        self.objects@,
                        self.lights@[k as int].position@,
                        point@,
                        shadowed,
                    ));
                }
            }
            out.push(shadowed);
            k += 1;
        }
        out
    }

    /// The colour of a hit: per light, the light that the surface sends to
    /// the eye plus what it mirrors and what shines through it; of several
    /// lights, in each channel the brightest.
    pub fn shade_hit(&self, comp: &PreComp<T>, remaining_recursions: usize) -> (c: Color<T>)
        requires
            total_field::<T>(),
            self.wf(),
            comp.wf(),
            comp.object < self.objects@.len(),
            self.lights@.len() > 0,
        ensures
            obeys_field::<T>() && T::obeys_eq_spec() ==> shades(
                self.objects@,
                self.lights@,
                *comp,
                remaining_recursions as nat,
                c,
            ),
        decreases remaining_recursions, 1nat,
    {
        let shadows = self.is_shadowed(&comp.over_point);
        let object = &self.objects[comp.object];
        let reflected = self.reflected_color(comp, remaining_recursions);
        let refracted = self.refracted_color(comp, remaining_recursions);
        let surface = self.lights[0].lighting(
            object,
            &object.material,
            &comp.point,
            &comp.eye,
            &comp.normal,
            shadows[0],
        );
        let mut blend = surface + reflected + refracted;
        let ghost mut cs: Seq<Color<T>> = seq![blend];
        let ghost exact = obeys_field::<T>() && T::obeys_eq_spec();
        proof {
            if exact {
                lemma_lit_by(*object, self.lights@[0], *comp, shadows@[0], reflected, refracted, surface);
            }
        }
        let mut k: usize = 1;
        while k < self.lights.len()
            invariant
                total_field::<T>(),
                self.wf(),
                comp.wf(),
                comp.object < self.objects@.len(),
                *object == self.objects@[comp.object as int],
                shadows@.len() == self.lights@.len(),
                1 <= k <= self.lights@.len(),
                cs.len() == k,
                exact == (obeys_field::<T>() && T::obeys_eq_spec()),
                exact ==> blend == lighten_all(cs),
                exact ==> forall|j: int|
                    0 <= j < k ==> is_lit_by(
                        *object,
                        self.lights@[j],
                        *comp,
                        shadows@[j],
                        reflected,
                        refracted,
                        #[trigger] cs[j],
                    ),
            decreases self.lights@.len() - k,
        {
            let surface = self.lights[k].lighting(
                object,
                &object.material,
                &comp.point,
                &comp.eye,
                &comp.normal,
                shadows[k],
            );
            let new_color = surface + reflected + refracted;
            proof {
                assert(cs.push(new_color).drop_last() =~= cs);
                if exact {
                    lemma_lit_by(
                        *object,
                        self.lights@[k as int],
                        *comp,
                        shadows@[k as int],
                        reflected,
                        refracted,
                        surface,
                    );
                }
                cs = cs.push(new_color);
            }
            blend = new_color.blend_lighten_only(blend);
            k += 1;
        }
        proof {
            if exact {
                assert(lit_by_each(
                    self.objects@,
                    self.lights@,
                    *comp,
                    shadows@,
                    reflected,
                    refracted,
                    cs,
                ));
            }
        }
        blend
    }

    /// The colour that a ray sees: black if it meets nothing, else the
    /// colour of its hit. `remaining_recursions` bounds how often the ray
    /// may still be mirrored or refracted.
    pub fn color_at(&self, ray: &Ray<T>, remaining_recursions: usize) -> (c: Color<T>)
        requires
            total_field::<T>(),
            self.wf(),
            ray.wf(),
            self.lights@.len() > 0,
        ensures
            obeys_field::<T>() && T::obeys_eq_spec() ==> sees(
                self.objects@,
                self.lights@,
                ray.origin@,
                ray.direction@,
                remaining_recursions as nat,
                c,
            ),
        decreases remaining_recursions, 3nat,
    {
        let is = self.intersect(ray);
        match is.hit_index() {
            Some(hit) => {
                let precomp = is.is[hit].prepare_computations(ray, &is, hit, &self.objects);
                let c = self.shade_hit(&precomp, remaining_recursions);
                proof {
                    if obeys_field::<T>() && T::obeys_eq_spec() {
                        assert(is_precomp(
                            self.objects@,
                            is.is@,
                            hit as int,
                            ray.origin@,
                            ray.direction@,
                            precomp,
                        ) && shades(
                            self.objects@,
                            self.lights@,
                            precomp,
                            remaining_recursions as nat,
                            c,
                        ));
                        assert(sees_hit(
                            self.objects@,
                            self.lights@,
                            ray.origin@,
                            ray.direction@,
                            is.is@,
                            hit as int,
                            remaining_recursions as nat,
                            c,
                        ));
                        assert(meets_world(self.objects@, ray.origin@, ray.direction@, is.is@)
                            && names_objects(is.is@, self.objects@.len() as int));
                    }
                }
                c
            },
            None => {
                let c = Color::black();
                proof {
                    if obeys_field::<T>() && T::obeys_eq_spec() {
                        assert(meets_world(self.objects@, ray.origin@, ray.direction@, is.is@)
                            && names_objects(is.is@, self.objects@.len() as int));
                    }
                }
                c
            },
        }
    }

    /// Get the reflected color, `remaining_recursions` says how many more recursions
    /// it's allowed to make: black if none or if the material does not
    /// mirror, else the colour that the mirrored ray sees, times the
    /// material's reflectiveness.
    pub fn reflected_color(&self, comps: &PreComp<T>, remaining_recursions: usize) -> (c: Color<T>)
        requires
            total_field::<T>(),
            self.wf(),
            comps.wf(),
            comps.object < self.objects@.len(),
            self.lights@.len() > 0,
        ensures
            obeys_field::<T>() && T::obeys_eq_spec() ==> mirrors(
                self.objects@,
                self.lights@,
                *comps,
                remaining_recursions as nat,
                c,
            ),
        decreases remaining_recursions, 0nat,
    {
        let z: T = zero();
        let reflectiveness = self.objects[comps.object].material.reflectiveness;
        if remaining_recursions == 0 || reflectiveness == z {
            Color::black()
        } else {
            let reflect_ray = Ray::new(comps.over_point.copied(), comps.reflection.copied());
            let color = self.color_at(&reflect_ray, remaining_recursions - 1);
            let c = color * reflectiveness;
            proof {
                if obeys_field::<T>() && T::obeys_eq_spec() {
                    assert(sees(
                        self.objects@,
                        self.lights@,
                        comps.over_point@,
                        comps.reflection@,
                        (remaining_recursions - 1) as nat,
                        color,
                    ) && c == Pixel::scaled(color, reflectiveness));
                }
            }
            c
        }
    }

    /// The colour that shines through a surface: black if no recursion is
    /// left, if the material is opaque or if the light is reflected
    /// totally; else the colour that the refracted ray sees, times the
    /// material's transparency.
    pub fn refracted_color(&self, comps: &PreComp<T>, remaining_recursions: usize) -> (c: Color<T>)
        requires
            total_field::<T>(),
            self.wf(),
            comps.wf(),
            comps.object < self.objects@.len(),
            self.lights@.len() > 0,
        ensures
            obeys_field::<T>() && T::obeys_eq_spec() ==> passes(
                self.objects@,
                self.lights@,
                *comps,
                remaining_recursions as nat,
                c,
            ),
        decreases remaining_recursions, 0nat,
    {
        proof {
            lemma_dims_4();
        }
        let z: T = zero();
        let o: T = one();
        let transparency = self.objects[comps.object].material.transparency;
        if remaining_recursions == 0 || transparency == z {
            Color::black()
        } else {
            // Handle total internal reflection. Implementation based on Snell's Law
            let n_ratio = comps.n1 / comps.n2;
            let cos_i = scalar_prod_of(&comps.eye, &comps.normal);
            let sin2_t = sin2_t_of(comps.n1, comps.n2, cos_i);
            if sin2_t > o {
                Color::black()
            } else {
                let cos_t = (o - sin2_t).sqrt();
                let direction = &(&comps.normal * (n_ratio * cos_i - cos_t)) - &(&comps.eye
                    * n_ratio);
                let refract_ray = Ray::new(comps.under_point.copied(), direction);
                let color = self.color_at(&refract_ray, remaining_recursions - 1);
                let c = color * transparency;
                proof {
                    if obeys_field::<T>() && T::obeys_eq_spec() {
                        assert(refract_ray.direction@ == refracted_direction(*comps, cos_t));
                        assert(call_ensures(
                            T::sqrt,
                            (spec_one::<T>().sub_spec(
                                snell_sin2(
                                    comps.n1,
                                    comps.n2,
                                    scalar_prod_seq(comps.eye@, comps.normal@),
                                ),
                            ),),
                            cos_t,
                        ) && sees(
                            self.objects@,
                            self.lights@,
                            comps.under_point@,
                            refracted_direction(*comps, cos_t),
                            (remaining_recursions - 1) as nat,
                            color,
                        ) && c == Pixel::scaled(color, transparency));
                    }
                }
                c
            }
        }
    }
}

/// The colour that one light gives a hit is the light that the surface
/// sends to the eye, with what it mirrors and what shines through it added.
pub proof fn lemma_lit_by<T: Scalar>(
    object: Shape<T>,
    light: PointLight<T>,
    comp: PreComp<T>,
    in_shadow: bool,
    reflected: Color<T>,
    refracted: Color<T>,
    surface: Color<T>,
)
    requires
        exists|color: Color<T>| #[trigger]
            is_lighting(color, light.intensity, object.material, in_shadow, surface)
                && is_surface_color(object.material, object.placement.inverse@, comp.point@, color),
    ensures
        is_lit_by(
            object,
            light,
            comp,
            in_shadow,
            reflected,
            refracted,
            Pixel::plus(Pixel::plus(surface, reflected), refracted),
        ),
{
    let color = choose|color: Color<T>| #[trigger]
        is_lighting(color, light.intensity, object.material, in_shadow, surface)
            && is_surface_color(object.material, object.placement.inverse@, comp.point@, color);
    assert(is_lighting(color, light.intensity, object.material, in_shadow, surface)
        && is_surface_color(object.material, object.placement.inverse@, comp.point@, color));
}

/// With no recursion left, a surface mirrors nothing and nothing shines
/// through it, whatever the scene and the material.
pub proof fn lemma_no_recursion_left<T: Scalar>(
    objects: Seq<Shape<T>>,
    lights: Seq<PointLight<T>>,
    comp: PreComp<T>,
    reflected: Color<T>,
    refracted: Color<T>,
)
    requires
        mirrors(objects, lights, comp, 0, reflected),
        passes(objects, lights, comp, 0, refracted),
    ensures
        reflected == Pixel::<T>::spec_black(),
        refracted == Pixel::<T>::spec_black(),
{
}

/// A ray that meets nothing sees black.
pub proof fn lemma_miss_is_black<T: Scalar>(
    lights: Seq<PointLight<T>>,
    origin: Seq<T>,
    direction: Seq<T>,
    remaining: nat,
    c: Color<T>,
)
    requires
        sees(Seq::<Shape<T>>::empty(), lights, origin, direction, remaining, c),
    ensures
        c == Pixel::<T>::spec_black(),
{
    broadcast use vstd::seq_lib::group_to_multiset_ensures;

    let objects = Seq::<Shape<T>>::empty();
    let xs = choose|xs: Seq<Intersection<T>>| #[trigger]
        meets_world(objects, origin, direction, xs) && names_objects(xs, objects.len() as int)
            && match first_hit(xs, xs.len() as int) {
            None => c == Pixel::<T>::spec_black(),
            Some(i) => sees_hit(objects, lights, origin, direction, xs, i, remaining, c),
        };
    if xs.len() > 0 {
        assert(xs[0].object < 0);
    }
    assert(first_hit(xs, 0) is None);
}

/// What the first `k` lists hold does not change when a list is added
/// behind them, and with the added list they hold that as well.
pub proof fn lemma_gathered_prefix<T>(
    before: Seq<Option<Seq<Intersection<T>>>>,
    after: Seq<Option<Seq<Intersection<T>>>>,
    k: int,
)
    requires
        0 <= k <= before.len(),
        after.len() >= before.len(),
        forall|j: int| 0 <= j < before.len() ==> after[j] == before[j],
    ensures
        gathered(after, k) == gathered(before, k),
    decreases k,
{
    if k > 0 {
        lemma_gathered_prefix(before, after, k - 1);
    }
}

} // verus!
