#![allow(unused_imports)]
use rtc::primitives::approx_eq::epsilon;
use rtc::primitives::canvas::Canvas;
use rtc::scenes::camera::{row_chunks, Camera, MAXIMUM_REFLECTION_RECURSION_DEPTH};
use rtc::scenes::world::World;
use rtc::shading::lights::PointLight;
use rtc::shapes::intersection::{Intersection, Intersections};
use rtc::shapes::precomp::PreComp;
use rtc::shapes::prelude::ShapeKind;

use rtc::primitives::approx_eq::ApproxEq;
use rtc::primitives::pixel::Pixel;
use rtc::primitives::ray::Ray;
use rtc::primitives::scalar::Elementary;
use rtc::primitives::tmatrix::Matrix;
use rtc::primitives::transformation_matrices::Matrix4x4;
use rtc::primitives::vector::{point, vector, Vec4D};
use rtc::shading::material::Material;
use rtc::shapes::prelude::Shape;
use std::f64::consts;
use std::ops::{Add, Div, Mul, Neg, Rem, Sub};

/// The scalar of these tests: a double with the elementary functions of std.
#[derive(Clone, Copy, Debug, Default, PartialEq, PartialOrd)]
struct F(f64);

impl Add for F {
    type Output = F;
    fn add(self, o: F) -> F {
        F(self.0 + o.0)
    }
}

impl Sub for F {
    type Output = F;
    fn sub(self, o: F) -> F {
        F(self.0 - o.0)
    }
}

impl Mul for F {
    type Output = F;
    fn mul(self, o: F) -> F {
        F(self.0 * o.0)
    }
}

impl Div for F {
    type Output = F;
    fn div(self, o: F) -> F {
        F(self.0 / o.0)
    }
}

impl Rem for F {
    type Output = F;
    fn rem(self, o: F) -> F {
        F(self.0 % o.0)
    }
}

impl Neg for F {
    type Output = F;
    fn neg(self) -> F {
        F(-self.0)
    }
}

impl From<i8> for F {
    fn from(n: i8) -> F {
        F(f64::from(n))
    }
}

impl Elementary for F {
    fn sqrt(self) -> F {
        F(self.0.sqrt())
    }
    fn sin(self) -> F {
        F(self.0.sin())
    }
    fn cos(self) -> F {
        F(self.0.cos())
    }
    fn tan(self) -> F {
        F(self.0.tan())
    }
    fn powf(self, n: F) -> F {
        F(self.0.powf(n.0))
    }
    fn floor(self) -> F {
        F(self.0.floor())
    }
    fn round_to_usize(self) -> usize {
        self.0.round() as usize
    }
    fn from_usize(n: usize) -> F {
        F(n as f64)
    }
}

#[allow(dead_code)]
fn p(x: f64, y: f64, z: f64) -> Vec4D<F> {
    point(F(x), F(y), F(z))
}

#[allow(dead_code)]
fn v(x: f64, y: f64, z: f64) -> Vec4D<F> {
    vector(F(x), F(y), F(z))
}

#[allow(dead_code)]
fn rgb(r: f64, g: f64, b: f64) -> Pixel<F> {
    Pixel::new_rgb(F(r), F(g), F(b))
}

#[allow(dead_code)]
fn identity() -> Matrix4x4<F> {
    Matrix::identity()
}

#[allow(dead_code)]
fn translation(x: f64, y: f64, z: f64) -> Matrix4x4<F> {
    Matrix4x4::new_translation(F(x), F(y), F(z))
}

#[allow(dead_code)]
fn scaling(x: f64, y: f64, z: f64) -> Matrix4x4<F> {
    Matrix4x4::new_scaling(F(x), F(y), F(z))
}

#[allow(dead_code)]
fn material(
    color: Pixel<F>,
    ambient: f64,
    diffuse: f64,
    specular: f64,
    shininess: f64,
    reflectiveness: f64,
    transparency: f64,
    refractive_index: f64,
) -> Material<F> {
    Material::new(
        color,
        F(ambient),
        F(diffuse),
        F(specular),
        F(shininess),
        F(reflectiveness),
        F(transparency),
        F(refractive_index),
    )
}

#[allow(dead_code)]
fn sphere() -> Shape<F> {
    Shape::default().unwrap()
}

fn world() -> World<F> {
    World::default().unwrap()
}

fn prepare(w: &World<F>, xs: &Intersections<F>, k: usize, r: &Ray<F>) -> PreComp<F> {
    xs.is[k].prepare_computations(r, xs, k, &w.objects)
}

fn light() -> PointLight<F> {
    PointLight::new(p(-10., 10., -10.), rgb(1., 1., 1.))
}

fn half_sphere() -> Shape<F> {
    Shape::new(ShapeKind::Sphere, Material::default(), scaling(0.5, 0.5, 0.5)).unwrap()
}

fn world_with_mirror() -> World<F> {
    let mut w = world();
    let mut mat = Material::default();
    mat.reflectiveness = F(0.5);
    w.objects.push(Shape::new_plane(mat, translation(0., -1., 0.)).unwrap());
    w
}

#[test]
fn intersect() {
    let w = world();
    let r = Ray::new(p(0., 0., -5.), v(0., 0., 1.));
    let xs = w.intersect(&r);
    assert_eq!(xs.len(), 4);
    assert!(xs[0].t.approx_eq(F(4.0)));
    assert!(xs[1].t.approx_eq(F(4.5)));
    assert!(xs[2].t.approx_eq(F(5.5)));
    assert!(xs[3].t.approx_eq(F(6.0)));
}

#[test]
fn shade_intersection() {
    let w = world();
    let r = Ray::new(p(0., 0., -5.), v(0., 0., 1.));
    let is = Intersections::new(vec![Intersection::new(F(4.), 0)]);
    let comps = prepare(&w, &is, 0, &r);
    let c = w.shade_hit(&comps, 1);
    assert!(c.approx_eq(rgb(0.38066, 0.47583, 0.2855)));
}

#[test]
fn shade_intersection_inside() {
    let mut w = world();
    w.lights = vec![PointLight::new(p(0., 0.25, 0.), rgb(1., 1., 1.))];
    let r = Ray::new(p(0., 0., 0.), v(0., 0., 1.));
    let is = Intersections::new(vec![Intersection::new(F(0.5), 1)]);
    let comps = prepare(&w, &is, 0, &r);
    let c = w.shade_hit(&comps, 1);
    assert!(c.approx_eq(rgb(0.90498, 0.90498, 0.90498)));
}

#[test]
fn color_at_miss() {
    let w = world();
    let r = Ray::new(p(0., 0., -5.), v(0., 1., 0.));
    let c = w.color_at(&r, 1);
    assert!(c.approx_eq(rgb(0., 0., 0.)));
}

#[test]
fn color_at_hit() {
    let w = world();
    let r = Ray::new(p(0., 0., -5.), v(0., 0., 1.));
    let c = w.color_at(&r, 1);
    assert!(c.approx_eq(rgb(0.38066, 0.47583, 0.2855)));
}

#[test]
fn color_at_from_inside() {
    let mut w = world();
    w.objects[0].material.ambient = F(1.0);
    w.objects[1].material.ambient = F(1.0);
    let r = Ray::new(p(0., 0., 0.75), v(0., 0., -1.));
    let c = w.color_at(&r, 1);
    assert!(c.approx_eq(w.objects[1].material.color));
}

#[test]
fn camera_new() {
    let cam = Camera::new(160, 120, F(consts::FRAC_PI_2), identity()).unwrap();
    assert_eq!(cam.height(), 120);
    assert_eq!(cam.width(), 160);
    assert_eq!(cam.fov(), F(consts::FRAC_PI_2));
    assert!(cam.transform().approx_eq(&identity()));
}

#[test]
fn camera_pixel_size() {
    let cam = Camera::new(200, 125, F(consts::FRAC_PI_2), identity()).unwrap();
    assert_eq!(cam.height(), 125);
    assert_eq!(cam.width(), 200);
    assert_eq!(cam.fov(), F(consts::FRAC_PI_2));
    assert!(cam.transform().approx_eq(&identity()));
}

#[test]
fn camera_pixel_size_for_both_formats() {
    let wide = Camera::new(200, 125, F(consts::FRAC_PI_2), identity()).unwrap();
    assert!(wide.pixel_size().approx_eq(F(0.01)));
    assert!(wide.aspect_ratio().approx_eq(F(1.6)));
    let tall = Camera::new(125, 200, F(consts::FRAC_PI_2), identity()).unwrap();
    assert!(tall.pixel_size().approx_eq(F(0.01)));
    assert!(tall.half_height.approx_eq(F(1.0)));
    assert!(tall.half_width.approx_eq(F(0.625)));
}

#[test]
fn cons_ray_center() {
    let cam = Camera::new(201, 101, F(consts::FRAC_PI_2), identity()).unwrap();
    let ray = cam.ray_for_pixel(100, 50);
    assert!(ray.origin.approx_eq(&p(0., 0., 0.)));
    assert!(ray.direction.approx_eq(&v(0., 0., -1.)));
}

#[test]
fn cons_ray_corner() {
    let cam = Camera::new(201, 101, F(consts::FRAC_PI_2), identity()).unwrap();
    let ray = cam.ray_for_pixel(0, 0);
    assert!(ray.origin.approx_eq(&p(0., 0., 0.)));
    assert!(ray.direction.approx_eq(&v(0.66519, 0.33259, -0.66851)));
}

#[test]
fn cons_ray_transformed_cam() {
    let cam = Camera::new(
        201,
        101,
        F(consts::FRAC_PI_2),
        translation(0., -2., 5.).and_rotate_y(F(consts::FRAC_PI_4)),
    )
    .unwrap();
    let ray = cam.ray_for_pixel(100, 50);
    let a = consts::SQRT_2 / 2.0;
    assert!(ray.origin.approx_eq(&p(0., 2., -5.)));
    assert!(ray.direction.approx_eq(&v(a, 0., -a)));
}

#[test]
fn render_default_with_cam() {
    let from = p(0., 0., -5.);
    let to: Vec4D<F> = Vec4D::origin();
    let up = v(0., 1., 0.);
    let cam = Camera::new(11, 11, F(consts::FRAC_PI_2), Matrix4x4::new_view(&from, &to, &up))
        .unwrap();
    let image = cam.render(&world());
    assert!(image.get(5, 5).unwrap().approx_eq(rgb(0.38066, 0.47583, 0.2855)));
    assert_eq!((image.width(), image.height()), (11, 11));
}

#[test]
fn shadow_nothing_colinear() {
    let w = world();
    assert!(!w.is_shadowed(&p(0., 10., 0.))[0]);
}

#[test]
fn shadow_object_in_path() {
    let w = world();
    assert!(w.is_shadowed(&p(10., -10., 10.))[0]);
}

#[test]
fn shadow_point_behind() {
    let w = world();
    assert!(!w.is_shadowed(&p(-20., 20., -20.))[0]);
}

#[test]
fn shadow_object_behind() {
    let w = world();
    assert!(!w.is_shadowed(&p(-2., 2., -2.))[0]);
}

#[test]
fn shade_hit_intersection_in_shadow() {
    let s2 = Shape::new(ShapeKind::Sphere, Material::default(), translation(0., 0., 10.)).unwrap();
    let w = World::new(
        vec![sphere(), s2],
        vec![PointLight::new(p(0., 0., -10.), rgb(1., 1., 1.))],
    );
    let r = Ray::new(p(0., 0., 5.), v(0., 0., 1.));
    let is = Intersections::new(vec![Intersection::new(F(4.), 1)]);
    let comps = prepare(&w, &is, 0, &r);
    let c = w.shade_hit(&comps, 1);
    assert!(c.approx_eq(rgb(0.1, 0.1, 0.1)));
}

#[test]
fn shadow_hit_offset_point() {
    let r = Ray::new(p(0., 0., -5.), v(0., 0., 1.));
    let shape =
        Shape::new(ShapeKind::Sphere, Material::default(), translation(0., 0., 1.)).unwrap();
    let w = World::new(vec![shape], vec![light()]);
    let is = Intersections::new(vec![Intersection::new(F(5.), 0)]);
    let comps = prepare(&w, &is, 0, &r);
    assert!(comps.over_point.z() < -epsilon::<F>() / F(2.0));
    assert!(comps.point.z() > comps.over_point.z());
    assert!(comps.under_point.z() > comps.point.z());
}

#[test]
fn nonreflective_reflection() {
    let s1 = Shape::new(
        ShapeKind::Sphere,
        material(rgb(0.8, 1.0, 0.6), 0.1, 0.7, 0.2, 200.0, 0., 0., 1.),
        identity(),
    )
    .unwrap();
    let mut s2 = half_sphere();
    s2.material.ambient = F(1.0);
    let w = World::new(vec![s1, s2], vec![light()]);
    let r = Ray::new(Vec4D::origin(), v(0., 0., 1.));
    let is = Intersections::new(vec![Intersection::new(F(1.), 1)]);
    let comps = prepare(&w, &is, 0, &r);
    let color = w.reflected_color(&comps, 1);
    assert!(color.approx_eq(Pixel::black()));
}

#[test]
fn reflective_reflection() {
    let w = world_with_mirror();
    let a = consts::SQRT_2 / 2.0;
    let r = Ray::new(p(0., 0., -3.), v(0., -a, a));
    let is = Intersections::new(vec![Intersection::new(F(consts::SQRT_2), 2)]);
    let comps = prepare(&w, &is, 0, &r);
    let color = w.reflected_color(&comps, 1);
    assert!(color.approx_eq(rgb(0.19032, 0.2379, 0.14274)));
}

#[test]
fn shade_hit_with_reflective_mat() {
    let w = world_with_mirror();
    let a = consts::SQRT_2 / 2.0;
    let r = Ray::new(p(0., 0., -3.), v(0., -a, a));
    let is = Intersections::new(vec![Intersection::new(F(consts::SQRT_2), 2)]);
    let comps = prepare(&w, &is, 0, &r);
    let color = w.shade_hit(&comps, 1);
    assert!(color.approx_eq(rgb(0.87677, 0.92436, 0.82918)));
}

#[test]
fn prevent_infinite_reflection() {
    let mut mat = Material::default();
    mat.reflectiveness = F(1.0);
    let world = World::new(
        vec![
            Shape::new_plane(mat.clone(), translation(0., -1., 0.)).unwrap(),
            Shape::new_plane(mat.clone(), translation(0., 1., 0.)).unwrap(),
        ],
        vec![PointLight::new(Vec4D::origin(), Pixel::white())],
    );
    let r = Ray::new(p(0., 0., 0.), v(0., 1., 0.));
    world.color_at(&r, 100);
}

#[test]
fn reflection_at_maximum_recursion() {
    let w = world_with_mirror();
    let a = consts::SQRT_2 / 2.0;
    let r = Ray::new(p(0., 0., -3.), v(0., -a, a));
    let is = Intersections::new(vec![Intersection::new(F(consts::SQRT_2), 2)]);
    let comps = prepare(&w, &is, 0, &r);
    let color = w.reflected_color(&comps, 0);
    assert!(color.approx_eq(rgb(0., 0., 0.)));
}

#[test]
fn refactored_opaque() {
    let w = world();
    let r = Ray::new(p(0., 0., -5.), v(0., 0., 1.));
    let xs = Intersections::new(vec![Intersection::new(F(4.), 0), Intersection::new(F(6.), 0)]);
    let comps = prepare(&w, &xs, 0, &r);
    let c = w.refracted_color(&comps, 5);
    assert!(c.approx_eq(Pixel::black()));
}

#[test]
fn refactored_at_max_depth() {
    let s1 = Shape::new(
        ShapeKind::Sphere,
        material(rgb(0.8, 1.0, 0.6), 0.1, 0.7, 0.2, 200.0, 0., 1., 1.5),
        identity(),
    )
    .unwrap();
    let w = World::new(vec![s1, half_sphere()], vec![light()]);
    let r = Ray::new(p(0., 0., -5.), v(0., 0., 1.));
    let xs = Intersections::new(vec![Intersection::new(F(4.), 0), Intersection::new(F(6.), 0)]);
    let comps = prepare(&w, &xs, 0, &r);
    let c = w.refracted_color(&comps, 0);
    assert!(c.approx_eq(Pixel::black()));
}

#[test]
fn total_internal_reflection() {
    let s1 = Shape::new(
        ShapeKind::Sphere,
        material(rgb(1., 1.0, 1.), 0.1, 0.9, 0.9, 200.0, 0., 1., 1.5),
        identity(),
    )
    .unwrap();
    let w = World::new(vec![s1, half_sphere()], vec![light()]);
    let a = consts::SQRT_2 / 2.0;
    let r = Ray::new(p(0., 0., a), v(0., 1., 0.));
    let xs = Intersections::new(vec![Intersection::new(F(-a), 0), Intersection::new(F(a), 0)]);
    let comps = prepare(&w, &xs, 1, &r);
    let c = w.refracted_color(&comps, 5);
    assert!(c.approx_eq(Pixel::black()));
}

#[test]
fn several_lights_blend_by_the_brightest_channel() {
    let mut w = world();
    let r = Ray::new(p(0., 0., -5.), v(0., 0., 1.));
    let is = Intersections::new(vec![Intersection::new(F(4.), 0)]);
    let comps = prepare(&w, &is, 0, &r);
    let one = w.shade_hit(&comps, 1);
    w.lights.push(light());
    let two = w.shade_hit(&comps, 1);
    // the same light twice is no brighter than once
    assert!(two.approx_eq(one));
    w.lights.push(PointLight::new(p(0., 0., -10.), rgb(0., 0., 1.)));
    let three = w.shade_hit(&comps, 1);
    assert!(three.r.approx_eq(one.r));
    assert!(three.g.approx_eq(one.g));
    assert!(three.b >= one.b);
}

#[test]
fn empty_world_is_black_and_casts_no_shadow() {
    let mut w: World<F> = World::new_empty();
    assert_eq!((w.objects.len(), w.lights.len()), (0, 0));
    w.lights.push(light());
    let r = Ray::new(p(0., 0., -5.), v(0., 0., 1.));
    assert_eq!(w.color_at(&r, 5), rgb(0., 0., 0.));
    assert_eq!(w.is_shadowed(&p(0., 0., 0.)), vec![false]);
    assert_eq!(w.intersect(&r).len(), 0);
}

#[test]
fn rows_are_dealt_out_in_contiguous_chunks() {
    assert_eq!(row_chunks(16, 8), vec![(0, 2), (2, 4), (4, 6), (6, 8), (8, 10), (10, 12), (12, 14), (14, 16)]);
    assert_eq!(row_chunks(11, 8), vec![(0, 1), (1, 2), (2, 3), (3, 4), (4, 5), (5, 6), (6, 7), (7, 8), (8, 9), (9, 10), (10, 11)]);
    assert_eq!(row_chunks(10, 4), vec![(0, 2), (2, 4), (4, 6), (6, 8), (8, 10)]);
    assert_eq!(row_chunks(7, 3), vec![(0, 2), (2, 4), (4, 6), (6, 7)]);
    assert_eq!(row_chunks(5, 5), vec![(0, 1), (1, 2), (2, 3), (3, 4), (4, 5)]);
    assert_eq!(MAXIMUM_REFLECTION_RECURSION_DEPTH, 5);
}

#[test]
fn render_rows_names_each_pixel() {
    let cam = Camera::new(3, 4, F(consts::FRAC_PI_2), identity()).unwrap();
    let pixels = cam.render_rows(&world(), 1, 3);
    let places: Vec<(usize, usize)> = pixels.iter().map(|px| (px.0, px.1)).collect();
    assert_eq!(places, vec![(0, 1), (1, 1), (2, 1), (0, 2), (1, 2), (2, 2)]);
}

#[test]
fn camera_with_singular_view() {
    assert!(Camera::new(10, 10, F(1.0), scaling(1., 1., 0.)).is_none());
}

#[test]
fn refraction_passes_light_on() {
    // a glass sphere in front of a white wall: what shines through is not black
    let wall = Shape::new_plane(
        material(rgb(1., 1., 1.), 1.0, 0., 0., 200., 0., 0., 1.),
        Matrix4x4::new_x_rotation(F(consts::FRAC_PI_2)).and_translate(F(0.), F(0.), F(5.)),
    )
    .unwrap();
    let glass = Shape::new_sphere(Material::glass(), identity()).unwrap();
    let w = World::new(vec![glass, wall], vec![light()]);
    let r = Ray::new(p(0., 0., -5.), v(0., 0., 1.));
    let xs = w.intersect(&r);
    let hit = xs.hit_index().unwrap();
    let comps = prepare(&w, &xs, hit, &r);
    let c = w.refracted_color(&comps, 5);
    assert!(c.r > F(0.5) && c.g > F(0.5) && c.b > F(0.5));
    assert_eq!(w.refracted_color(&comps, 0), rgb(0., 0., 0.));
}
