#![allow(unused_imports)]
use rtc::shapes::intersection::{Intersection, Intersections};
use rtc::shapes::precomp::PreComp;
use rtc::shapes::prelude::{base_shape_intersect, base_shape_normal, ShapeKind};

use rtc::primitives::approx_eq::ApproxEq;
use rtc::primitives::pixel::Pixel;
use rtc::primitives::ray::Ray;
use rtc::primitives::scalar::Elementary;
use rtc::primitives::tmatrix::Matrix;
use rtc::primitives::transformation_matrices::Matrix4x4;
use rtc::primitives::vector::{point, vector, Vec4D};
use rtc::shading::material::Material;
use rtc::shapes::prelude::Shape;
use std::f64::consts;
use std::ops::{Add, Div, Mul, Neg, Rem, Sub};

/// The scalar of these tests: a double with the elementary functions of std.
#[derive(Clone, Copy, Debug, Default, PartialEq, PartialOrd)]
struct F(f64);

impl Add for F {
    type Output = F;
    fn add(self, o: F) -> F {
        F(self.0 + o.0)
    }
}

impl Sub for F {
    type Output = F;
    fn sub(self, o: F) -> F {
        F(self.0 - o.0)
    }
}

impl Mul for F {
    type Output = F;
    fn mul(self, o: F) -> F {
        F(self.0 * o.0)
    }
}

impl Div for F {
    type Output = F;
    fn div(self, o: F) -> F {
        F(self.0 / o.0)
    }
}

impl Rem for F {
    type Output = F;
    fn rem(self, o: F) -> F {
        F(self.0 % o.0)
    }
}

impl Neg for F {
    type Output = F;
    fn neg(self) -> F {
        F(-self.0)
    }
}

impl From<i8> for F {
    fn from(n: i8) -> F {
        F(f64::from(n))
    }
}

impl Elementary for F {
    fn sqrt(self) -> F {
        F(self.0.sqrt())
    }
    fn sin(self) -> F {
        F(self.0.sin())
    }
    fn cos(self) -> F {
        F(self.0.cos())
    }
    fn tan(self) -> F {
        F(self.0.tan())
    }
    fn powf(self, n: F) -> F {
        F(self.0.powf(n.0))
    }
    fn floor(self) -> F {
        F(self.0.floor())
    }
    fn round_to_usize(self) -> usize {
        self.0.round() as usize
    }
    fn from_usize(n: usize) -> F {
        F(n as f64)
    }
}

#[allow(dead_code)]
fn p(x: f64, y: f64, z: f64) -> Vec4D<F> {
    point(F(x), F(y), F(z))
}

#[allow(dead_code)]
fn v(x: f64, y: f64, z: f64) -> Vec4D<F> {
    vector(F(x), F(y), F(z))
}

#[allow(dead_code)]
fn rgb(r: f64, g: f64, b: f64) -> Pixel<F> {
    Pixel::new_rgb(F(r), F(g), F(b))
}

#[allow(dead_code)]
fn identity() -> Matrix4x4<F> {
    Matrix::identity()
}

#[allow(dead_code)]
fn translation(x: f64, y: f64, z: f64) -> Matrix4x4<F> {
    Matrix4x4::new_translation(F(x), F(y), F(z))
}

#[allow(dead_code)]
fn scaling(x: f64, y: f64, z: f64) -> Matrix4x4<F> {
    Matrix4x4::new_scaling(F(x), F(y), F(z))
}

#[allow(dead_code)]
fn material(
    color: Pixel<F>,
    ambient: f64,
    diffuse: f64,
    specular: f64,
    shininess: f64,
    reflectiveness: f64,
    transparency: f64,
    refractive_index: f64,
) -> Material<F> {
    Material::new(
        color,
        F(ambient),
        F(diffuse),
        F(specular),
        F(shininess),
        F(reflectiveness),
        F(transparency),
        F(refractive_index),
    )
}

#[allow(dead_code)]
fn sphere() -> Shape<F> {
    Shape::default().unwrap()
}

fn squeezed() -> Matrix4x4<F> {
    Matrix4x4::new_z_rotation(F(consts::PI / 5.)).and_scale(F(1.), F(0.5), F(1.))
}

fn prepare(xs: &Intersections<F>, k: usize, r: &Ray<F>, objects: &Vec<Shape<F>>) -> PreComp<F> {
    xs.is[k].prepare_computations(r, xs, k, objects)
}

#[test]
fn tests_intersect_ray_sphere_2() {
    let s = sphere();
    let ray = Ray::new(p(0., 0., -5.), v(0., 0., 1.));
    let is = s.intersect(0, &ray).unwrap();
    assert_eq!(is.len(), 2);
    assert!(is[0].approx_eq(Intersection::new(F(4.0), 0)));
    assert!(is[1].approx_eq(Intersection::new(F(6.0), 0)));
}

#[test]
fn shapes_intersect_ray_sphere_2() {
    let s = sphere();
    let ray = Ray::new(p(0., 0., -5.), v(0., 0., 1.));
    let is = s.intersect(0, &ray).unwrap();
    assert_eq!(is.len(), 2);
    assert!(is[0].approx_eq(Intersection::new(F(4.0), 0)));
    assert!(is[1].approx_eq(Intersection::new(F(6.0), 0)));
}

#[test]
fn tests_intersect_ray_sphere_1() {
    let s = sphere();
    let ray = Ray::new(p(0., 1., -5.), v(0., 0., 1.));
    let is = s.intersect(0, &ray).unwrap();
    assert_eq!(is.len(), 2);
    assert!(is[0].approx_eq(Intersection::new(F(5.0), 0)));
    assert!(is[1].approx_eq(Intersection::new(F(5.0), 0)));
}

#[test]
fn shapes_intersect_ray_sphere_1() {
    let s = sphere();
    let ray = Ray::new(p(0., 1., -5.), v(0., 0., 1.));
    let is = s.intersect(0, &ray).unwrap();
    assert_eq!(is.len(), 2);
    assert!(is[0].approx_eq(Intersection::new(F(5.0), 0)));
    assert!(is[1].approx_eq(Intersection::new(F(5.0), 0)));
}

#[test]
fn tests_intersect_ray_sphere_inside() {
    let s = sphere();
    let ray = Ray::new(Vec4D::origin(), v(0., 0., 1.));
    let is = s.intersect(0, &ray).unwrap();
    assert_eq!(is.len(), 2);
    assert!(is[0].approx_eq(Intersection::new(F(-1.0), 0)));
    assert!(is[1].approx_eq(Intersection::new(F(1.0), 0)));
}

#[test]
fn shapes_intersect_ray_sphere_inside() {
    let s = sphere();
    let ray = Ray::new(Vec4D::origin(), v(0., 0., 1.));
    let is = s.intersect(0, &ray).unwrap();
    assert_eq!(is.len(), 2);
    assert!(is[0].approx_eq(Intersection::new(F(-1.0), 0)));
    assert!(is[1].approx_eq(Intersection::new(F(1.0), 0)));
}

#[test]
fn tests_intersect_ray_sphere_behind() {
    let s = sphere();
    let ray = Ray::new(p(0., 0., 5.), v(0., 0., 1.));
    let is = s.intersect(0, &ray).unwrap();
    assert_eq!(is.len(), 2);
    assert!(is[0].approx_eq(Intersection::new(F(-6.0), 0)));
    assert!(is[1].approx_eq(Intersection::new(F(-4.0), 0)));
}

#[test]
fn shapes_intersect_ray_sphere_behind() {
    let s = sphere();
    let ray = Ray::new(p(0., 0., 5.), v(0., 0., 1.));
    let is = s.intersect(0, &ray).unwrap();
    assert_eq!(is.len(), 2);
    assert!(is[0].approx_eq(Intersection::new(F(-6.0), 0)));
    assert!(is[1].approx_eq(Intersection::new(F(-4.0), 0)));
}

#[test]
fn tests_hit_all_positive() {
    let i1 = Intersection::new(F(1.), 0);
    let i2 = Intersection::new(F(2.), 0);
    let is = Intersections::new(vec![i2, i1.clone()]);
    assert!(is.hit().unwrap().approx_eq(&i1));
}

#[test]
fn shapes_hit_all_positive() {
    let i1 = Intersection::new(F(1.), 0);
    let i2 = Intersection::new(F(2.), 0);
    let is = Intersections::new(vec![i2, i1.clone()]);
    assert!(is.hit().unwrap().approx_eq(&i1));
}

#[test]
fn tests_hit_some_negative() {
    let i1 = Intersection::new(F(-1.), 0);
    let i2 = Intersection::new(F(1.), 0);
    let is = Intersections::new(vec![i2.clone(), i1]);
    assert!(is.hit().unwrap().approx_eq(&i2));
}

#[test]
fn shapes_hit_some_negative() {
    let i1 = Intersection::new(F(-1.), 0);
    let i2 = Intersection::new(F(1.), 0);
    let is = Intersections::new(vec![i2.clone(), i1]);
    assert!(is.hit().unwrap().approx_eq(&i2));
}

#[test]
fn tests_hit_all_negative() {
    let i1 = Intersection::new(F(-2.), 0);
    let i2 = Intersection::new(F(-1.), 0);
    let is = Intersections::new(vec![i2, i1]);
    assert!(is.hit().is_none());
}

#[test]
fn shapes_hit_all_negative() {
    let i1 = Intersection::new(F(-2.), 0);
    let i2 = Intersection::new(F(-1.), 0);
    let is = Intersections::new(vec![i2, i1]);
    assert!(is.hit().is_none());
}

#[test]
fn tests_hit_always_lowest() {
    let i1 = Intersection::new(F(5.), 0);
    let i2 = Intersection::new(F(7.), 0);
    let i3 = Intersection::new(F(-3.), 0);
    let i4 = Intersection::new(F(2.), 0);
    let is = Intersections::new(vec![i1, i2, i3, i4.clone()]);
    assert!(is.hit().unwrap().approx_eq(&i4));
}

#[test]
fn shapes_hit_always_lowest() {
    let i1 = Intersection::new(F(5.), 0);
    let i2 = Intersection::new(F(7.), 0);
    let i3 = Intersection::new(F(-3.), 0);
    let i4 = Intersection::new(F(2.), 0);
    let is = Intersections::new(vec![i1, i2, i3, i4.clone()]);
    assert!(is.hit().unwrap().approx_eq(&i4));
}

#[test]
fn tests_sphere_transform_get() {
    let s = sphere();
    assert!(s.transform().approx_eq(&identity()));
}

#[test]
fn shapes_sphere_transform_get() {
    let s = sphere();
    assert!(s.transform().approx_eq(&identity()));
}

#[test]
fn tests_sphere_transform_set() {
    let mut s = sphere();
    let t = translation(2., 3., 4.);
    assert!(s.set_transform(t.clone()));
    assert!(s.transform().approx_eq(&t));
}

#[test]
fn shapes_sphere_transform_set() {
    let mut s = sphere();
    let t = translation(2., 3., 4.);
    assert!(s.set_transform(t.clone()));
    assert!(s.transform().approx_eq(&t));
}

#[test]
fn tests_interset_ray_scaled_sphere() {
    let r = Ray::new(p(0., 0., -5.), v(0., 0., 1.));
    let mut s = sphere();
    let t = scaling(2., 2., 2.);
    assert!(s.set_transform(t.clone()));
    let is = s.intersect(0, &r).unwrap();
    assert_eq!(is.len(), 2);
    assert!(is[0].t.approx_eq(F(3.)));
    assert!(is[1].t.approx_eq(F(7.)));
}

#[test]
fn shapes_interset_ray_scaled_sphere() {
    let r = Ray::new(p(0., 0., -5.), v(0., 0., 1.));
    let mut s = sphere();
    let t = scaling(2., 2., 2.);
    assert!(s.set_transform(t.clone()));
    let is = s.intersect(0, &r).unwrap();
    assert_eq!(is.len(), 2);
    assert!(is[0].t.approx_eq(F(3.)));
    assert!(is[1].t.approx_eq(F(7.)));
}

#[test]
fn tests_interset_ray_translated_sphere() {
    let r = Ray::new(p(0., 0., -5.), v(0., 0., 1.));
    let mut s = sphere();
    let t = translation(5., 0., 0.);
    assert!(s.set_transform(t.clone()));
    let is = s.intersect(0, &r);
    assert!(is.is_none());
}

#[test]
fn shapes_interset_ray_translated_sphere() {
    let r = Ray::new(p(0., 0., -5.), v(0., 0., 1.));
    let mut s = sphere();
    let t = translation(5., 0., 0.);
    assert!(s.set_transform(t.clone()));
    let is = s.intersect(0, &r);
    assert!(is.is_none());
}

#[test]
fn normal_on_x_axis() {
    let s = sphere();
    let n = s.normal_at(&p(1., 0., 0.));
    assert!(n.approx_eq(&v(1., 0., 0.)));
}

#[test]
fn normal_on_y_axis() {
    let s = sphere();
    let n = s.normal_at(&p(0., 1., 0.));
    assert!(n.approx_eq(&v(0., 1., 0.)));
}

#[test]
fn normal_on_z_axis() {
    let s = sphere();
    let n = s.normal_at(&p(0., 0., 1.));
    assert!(n.approx_eq(&v(0., 0., 1.)));
}

#[test]
fn normal_nonaxial() {
    let s = sphere();
    let a = (3.0_f64).sqrt() / 3.;
    let n = s.normal_at(&p(a, a, a));
    assert!(n.approx_eq(&v(a, a, a)));
}

#[test]
fn normal_normalization() {
    let s = sphere();
    let a = (3.0_f64).sqrt() / 3.;
    let n = s.normal_at(&p(a, a, a));
    assert!(n.approx_eq(&n.clone().unit()));
}

#[test]
fn normal_of_translated_sphere() {
    let mut s = sphere();
    assert!(s.set_transform(translation(0., 1., 0.)));
    let n = s.normal_at(&p(0., 1.70711, -0.70711));
    assert!(n.approx_eq(&v(0., 0.70711, -0.70711)));
}

#[test]
fn normal_of_transformed_sphere() {
    let mut s = sphere();
    assert!(s.set_transform(squeezed()));
    let a = consts::SQRT_2 / 2.0;
    let n = s.normal_at(&p(0., a, -a));
    assert!(n.approx_eq(&v(0., 0.97014, -0.24254)));
}

#[test]
fn precompute_intersection() {
    let r = Ray::new(p(0., 0., -5.), v(0., 0., 1.));
    let objects = vec![sphere()];
    let i = Intersection::new(F(4.), 0);
    let is = Intersections::new(vec![i.clone()]);
    let comps = prepare(&is, 0, &r, &objects);
    assert!(comps.t.approx_eq(i.t));
    assert!(objects[comps.object].approx_eq(&objects[0]));
    assert_eq!(comps.object, 0);
    assert!(comps.point.approx_eq(&p(0., 0., -1.)));
    assert!(comps.eye.approx_eq(&v(0., 0., -1.)));
    assert!(comps.normal.approx_eq(&v(0., 0., -1.)));
}

#[test]
fn precompute_inside() {
    let r = Ray::new(p(0., 0., -5.), v(0., 0., 1.));
    let objects = vec![sphere()];
    let is = Intersections::new(vec![Intersection::new(F(4.), 0)]);
    let comps = prepare(&is, 0, &r, &objects);
    assert!(!comps.inside);

    let r = Ray::new(p(0., 0., 0.), v(0., 0., 1.));
    let is = Intersections::new(vec![Intersection::new(F(1.), 0)]);
    let comps = prepare(&is, 0, &r, &objects);
    assert!(comps.point.approx_eq(&p(0., 0., 1.)));
    assert!(comps.eye.approx_eq(&v(0., 0., -1.)));
    assert!(comps.inside);
    assert!(comps.normal.approx_eq(&v(0., 0., -1.)));
}

#[test]
fn plane_normal() {
    let pl = Shape::new_plane(Material::default(), identity()).unwrap();
    let n1 = pl.normal_at(&p(0., 0., 0.));
    let n2 = pl.normal_at(&p(10., 0., -10.));
    let n3 = pl.normal_at(&p(-5., 0., 150.));
    assert!(n1.approx_eq(&v(0., 1., 0.)));
    assert!(n2.approx_eq(&v(0., 1., 0.)));
    assert!(n3.approx_eq(&v(0., 1., 0.)));
}

#[test]
fn plane_intersect_parallel() {
    let pl = Shape::new_plane(Material::default(), identity()).unwrap();
    let r = Ray::new(p(0., 10., 0.), v(0., 0., 1.));
    let xs = pl.intersect(0, &r);
    assert!(xs.is_none());
}

#[test]
fn plane_intersect_coplanar() {
    let pl = Shape::new_plane(Material::default(), identity()).unwrap();
    let r = Ray::new(p(0., 0., 0.), v(0., 0., 1.));
    let xs = pl.intersect(0, &r);
    assert!(xs.is_none());
}

#[test]
fn plane_intersect_from_above() {
    let pl = Shape::new_plane(Material::default(), identity()).unwrap();
    let r = Ray::new(p(0., 1., 0.), v(0., -1., 0.));
    let xs = pl.intersect(3, &r).unwrap();
    assert_eq!(xs.len(), 1);
    assert!(xs[0].t.approx_eq(F(1.)));
    assert_eq!(xs[0].object, 3);
}

#[test]
fn plane_intersect_from_below() {
    let pl = Shape::new_plane(Material::default(), identity()).unwrap();
    let r = Ray::new(p(0., -1., 0.), v(0., 1., 0.));
    let xs = pl.intersect(3, &r).unwrap();
    assert_eq!(xs.len(), 1);
    assert!(xs[0].t.approx_eq(F(1.)));
    assert_eq!(xs[0].object, 3);
}

#[test]
fn precompute_reflection() {
    let objects = vec![Shape::new_plane(Material::default(), identity()).unwrap()];
    let a = consts::SQRT_2 / 2.0;
    let r = Ray::new(p(0., 1., -1.), v(0., -a, a));
    let is = Intersections::new(vec![Intersection::new(F(consts::SQRT_2), 0)]);
    let comps = prepare(&is, 0, &r, &objects);
    assert!(comps.reflection.approx_eq(&v(0., a, a)));
}

#[test]
fn precompute_n1_n2() {
    let m1 = material(rgb(1., 1., 1.), 0.1, 0.9, 0.9, 200., 0., 1., 1.5);
    let s1 = Shape::new_sphere(m1, scaling(2., 2., 2.)).unwrap();
    let m2 = material(rgb(1., 1., 1.), 0.1, 0.9, 0.9, 200., 0., 1., 2.0);
    let s2 = Shape::new_sphere(m2, translation(0., 0., -0.25)).unwrap();
    let m3 = material(rgb(1., 1., 1.), 0.1, 0.9, 0.9, 200., 0., 1., 2.5);
    let s3 = Shape::new_sphere(m3, translation(0., 0., 0.25)).unwrap();
    let objects = vec![s1, s2, s3];

    let r = Ray::new(p(0., 0., -4.), v(0., 0., 1.));
    let xs = Intersections::new(vec![
        Intersection::new(F(2.), 0),
        Intersection::new(F(2.75), 1),
        Intersection::new(F(3.25), 2),
        Intersection::new(F(4.75), 1),
        Intersection::new(F(5.25), 2),
        Intersection::new(F(6.), 0),
    ]);
    let vals = vec![(1.0, 1.5), (1.5, 2.0), (2.0, 2.5), (2.5, 2.5), (2.5, 1.5), (1.5, 1.0)];
    for (i, (n1, n2)) in vals.into_iter().enumerate() {
        let comps = prepare(&xs, i, &r, &objects);
        assert!(comps.n1.approx_eq(F(n1)));
        assert!(comps.n2.approx_eq(F(n2)));
    }
}

#[test]
fn schlick_total_internal_reflection() {
    let objects = vec![Shape::new_sphere(Material::glass(), identity()).unwrap()];
    let a = consts::SQRT_2 / 2.0;
    let r = Ray::new(p(0., 0., a), v(0., 1., 0.));
    let xs = Intersections::new(vec![Intersection::new(F(-a), 0), Intersection::new(F(a), 0)]);
    let comps = prepare(&xs, 1, &r, &objects);
    let reflectance = comps.schlick();
    assert!(reflectance.approx_eq(F(1.0)));
}

#[test]
fn reflectance_perpendicular_ray() {
    let objects = vec![Shape::new_sphere(Material::glass(), identity()).unwrap()];
    let r = Ray::new(p(0., 0., 0.), v(0., 1., 0.));
    let xs = Intersections::new(vec![Intersection::new(F(-1.), 0), Intersection::new(F(1.), 0)]);
    let comps = prepare(&xs, 1, &r, &objects);
    let reflectance = comps.schlick();
    assert!(reflectance.approx_eq(F(0.04)));
}

#[test]
fn schlick_approximation_for_small_angle() {
    let objects = vec![Shape::new_sphere(Material::glass(), identity()).unwrap()];
    let r = Ray::new(p(0., 0.99, -2.), v(0., 0., 1.));
    let xs = Intersections::new(vec![Intersection::new(F(1.8589), 0)]);
    let comps = prepare(&xs, 0, &r, &objects);
    let reflectance = comps.schlick();
    assert!(reflectance.approx_eq(F(0.48873)));
}

#[test]
fn intersect_cube() {
    let examples = vec![
        (p(5., 0.5, 0.), v(-1., 0., 0.), 4., 6.), // +x
        (p(-5., 0.5, 0.), v(1., 0., 0.), 4., 6.), // -x
        (p(0.5, 5., 0.), v(0., -1., 0.), 4., 6.), // +y
        (p(0.5, -5., 0.), v(0., 1., 0.), 4., 6.), // -y
        (p(0.5, 0., 5.), v(0., 0., -1.), 4., 6.), // +z
        (p(0.5, 0., -5.), v(0., 0., 1.), 4., 6.), // -z
        (p(0., 0.5, 0.), v(0., 0., 1.), -1., 1.), // inside
    ];
    let c = Shape::default_cube().unwrap();
    for (origin, direction, t1, t2) in examples.into_iter() {
        let r = Ray::new(origin, direction);
        let xs = c.intersect(0, &r).unwrap();
        assert_eq!(xs.len(), 2);
        assert!(xs[0].t.approx_eq(F(t1)));
        assert!(xs[1].t.approx_eq(F(t2)));
    }
}

#[test]
fn miss_cube() {
    let examples = vec![
        (p(-2., 0., 0.), v(0.2673, 0.5345, 0.8018)),
        (p(0., -2., 0.), v(0.8018, 0.2673, 0.5345)),
        (p(0., 0., -2.), v(0.5345, 0.8018, 0.2673)),
        (p(2., 0., 2.), v(0., 0., -1.)),
        (p(0., 2., 2.), v(0., -1., 0.)),
        (p(2., 2., 0.), v(-1., 0., 0.)),
    ];
    let c = Shape::default_cube().unwrap();
    for (origin, direction) in examples.into_iter() {
        let r = Ray::new(origin, direction);
        let xs = c.intersect(0, &r);
        assert!(xs.is_none());
    }
}

#[test]
fn surface_normal_cube() {
    let examples = vec![
        (p(1., 0.5, -0.8), v(1., 0., 0.)),
        (p(-1., -0.2, 0.9), v(-1., 0., 0.)),
        (p(-0.4, 1., -0.1), v(0., 1., 0.)),
        (p(0.3, -1., -0.7), v(0., -1., 0.)),
        (p(-0.6, 0.3, 1.), v(0., 0., 1.)),
        (p(0.4, 0.4, -1.), v(0., 0., -1.)),
        (p(1., 1., 1.), v(1., 0., 0.)),
        (p(-1., -1., -1.), v(-1., 0., 0.)),
    ];
    let c = Shape::default_cube().unwrap();
    for (point, normal) in examples.into_iter() {
        let calculated_normal = c.normal_at(&point);
        assert!(calculated_normal.approx_eq(&normal));
    }
}

#[test]
fn miss_cylinder() {
    let examples = vec![
        (p(1., 0., 0.), v(0., 1., 0.)),
        (p(0., 0., 0.), v(0., 1., 0.)),
        (p(0., 0., -5.), v(1., 1., 1.)),
    ];
    let c = Shape::default_cylinder().unwrap();
    for (origin, direction) in examples.into_iter() {
        let r = Ray::new(origin, direction.unit());
        let xs = c.intersect(0, &r);
        assert!(xs.is_none());
    }
}

#[test]
fn intersect_cylinder() {
    let examples = vec![
        (p(1., 0., -5.), v(0., 0., 1.), 5., 5.),
        (p(0., 0., -5.), v(0., 0., 1.), 4., 6.),
        (p(0.5, 0., -5.), v(0.1, 1., 1.), 6.80798, 7.08872),
    ];
    let c = Shape::default_cylinder().unwrap();
    for (origin, direction, t1, t2) in examples.into_iter() {
        let r = Ray::new(origin, direction.unit());
        let xs = c.intersect(0, &r).unwrap();
        assert_eq!(xs.len(), 2);
        assert!(xs[0].t.approx_eq(F(t1)));
        assert!(xs[1].t.approx_eq(F(t2)));
    }
}

#[test]
fn surface_normal_cylinder() {
    let examples = vec![
        (p(1., 0., 0.), v(1., 0., 0.)),
        (p(0., 5., -1.), v(0., 0., -1.)),
        (p(0., -2., 1.), v(0., 0., 1.)),
        (p(-1., 1., 0.), v(-1., 0., 0.)),
    ];
    let c = Shape::default_cylinder().unwrap();
    for (point, normal) in examples.into_iter() {
        let calculated_normal = c.normal_at(&point);
        assert!(calculated_normal.approx_eq(&normal));
    }
}

#[test]
fn truncated_cylinder_keeps_what_lies_between_the_caps() {
    let c = Shape::default_trunc_cylinder().unwrap();
    assert_eq!(c.kind, ShapeKind::TruncatedCylinder);
    let examples = vec![
        (p(0., 1.5, 0.), v(0.1, 1., 0.), 0),
        (p(0., 3., 0.), v(0., -1., 0.), 0),
        (p(0., 0., -5.), v(0., 0., 1.), 2),
        (p(0., 1.5, -2.), v(0., 0., 1.), 0),
        (p(0., 1., -5.), v(0., 0., 1.), 0),
        (p(0., 0.5, -5.), v(0., 0., 1.), 2),
    ];
    for (origin, direction, count) in examples.into_iter() {
        let r = Ray::new(origin, direction.unit());
        let n = c.intersect(0, &r).map(|xs| xs.len()).unwrap_or(0);
        assert_eq!(n, count);
    }
}

#[test]
fn hit_takes_a_parameter_of_zero() {
    let is = Intersections::new(vec![Intersection::new(F(3.), 0), Intersection::new(F(0.), 1)]);
    assert_eq!(is.hit_index(), Some(0));
    assert_eq!(is.hit().unwrap().object, 1);
}

#[test]
fn intersections_are_sorted_and_stable() {
    let is = Intersections::new(vec![
        Intersection::new(F(2.), 0),
        Intersection::new(F(1.), 1),
        Intersection::new(F(2.), 2),
        Intersection::new(F(-1.), 3),
        Intersection::new(F(1.), 4),
    ]);
    let order: Vec<usize> = is.iter().map(|i| i.object).collect();
    assert_eq!(order, vec![3, 1, 4, 0, 2]);
    assert_eq!(is.into_iter().len(), 5);
}

#[test]
fn singular_transform_gives_no_shape() {
    assert!(Shape::new_sphere(Material::default(), scaling(1., 0., 1.)).is_none());
    let mut s = sphere();
    assert!(!s.set_transform(scaling(0., 0., 0.)));
    assert!(s.transform().approx_eq(&identity()));
    assert!(s.inverse_transform().approx_eq(&identity()));
}

#[test]
fn inverse_is_kept_with_the_transform() {
    let mut s = sphere();
    assert!(s.set_transform(scaling(2., 4., 8.)));
    assert!(s.inverse_transform().approx_eq(&scaling(0.5, 0.25, 0.125)));
}

#[test]
fn base_shape_functions_take_ray_and_point_to_object_space() {
    let mut s = sphere();
    assert!(s.set_transform(translation(0., 0., 3.)));
    let r = Ray::new(p(0., 0., -5.), v(0., 0., 1.));
    let seen = base_shape_intersect(&s, &r, |_, ray2| {
        Some(Intersections::single(ray2.origin.z(), 7))
    })
    .unwrap();
    assert!(seen[0].t.approx_eq(F(-8.)));
    assert_eq!(seen[0].object, 7);
    let n = base_shape_normal(&s, &p(0., 0., 5.), |_, at| v(at.z().0, 0., 0.));
    assert!(n.approx_eq(&v(1., 0., 0.)));
}

#[test]
fn modify_transform_keeps_the_inverse_in_step() {
    let mut s = sphere();
    assert!(s.modify_transform(|t| t.and_scale(F(2.), F(2.), F(2.))));
    assert!(s.transform().approx_eq(&scaling(2., 2., 2.)));
    assert!(s.inverse_transform().approx_eq(&scaling(0.5, 0.5, 0.5)));
    assert!(!s.modify_transform(|t| t.and_scale(F(0.), F(2.), F(2.))));
    assert!(s.transform().approx_eq(&scaling(2., 2., 2.)));
}
