#![allow(unused_imports)]
use rtc::primitives::canvas::Canvas;
use rtc::primitives::vector::{CrossProd, ScalarProd};
use rtc::utils::typelevel_nums::{N3, N4};

use rtc::primitives::approx_eq::ApproxEq;
use rtc::primitives::pixel::Pixel;
use rtc::primitives::ray::Ray;
use rtc::primitives::scalar::Elementary;
use rtc::primitives::tmatrix::Matrix;
use rtc::primitives::transformation_matrices::Matrix4x4;
use rtc::primitives::vector::{point, vector, Vec4D};
use rtc::shading::material::Material;
use rtc::shapes::prelude::Shape;
use std::f64::consts;
use std::ops::{Add, Div, Mul, Neg, Rem, Sub};

/// The scalar of these tests: a double with the elementary functions of std.
#[derive(Clone, Copy, Debug, Default, PartialEq, PartialOrd)]
struct F(f64);

impl Add for F {
    type Output = F;
    fn add(self, o: F) -> F {
        F(self.0 + o.0)
    }
}

impl Sub for F {
    type Output = F;
    fn sub(self, o: F) -> F {
        F(self.0 - o.0)
    }
}

impl Mul for F {
    type Output = F;
    fn mul(self, o: F) -> F {
        F(self.0 * o.0)
    }
}

impl Div for F {
    type Output = F;
    fn div(self, o: F) -> F {
        F(self.0 / o.0)
    }
}

impl Rem for F {
    type Output = F;
    fn rem(self, o: F) -> F {
        F(self.0 % o.0)
    }
}

impl Neg for F {
    type Output = F;
    fn neg(self) -> F {
        F(-self.0)
    }
}

impl From<i8> for F {
    fn from(n: i8) -> F {
        F(f64::from(n))
    }
}

impl Elementary for F {
    fn sqrt(self) -> F {
        F(self.0.sqrt())
    }
    fn sin(self) -> F {
        F(self.0.sin())
    }
    fn cos(self) -> F {
        F(self.0.cos())
    }
    fn tan(self) -> F {
        F(self.0.tan())
    }
    fn powf(self, n: F) -> F {
        F(self.0.powf(n.0))
    }
    fn floor(self) -> F {
        F(self.0.floor())
    }
    fn round_to_usize(self) -> usize {
        self.0.round() as usize
    }
    fn from_usize(n: usize) -> F {
        F(n as f64)
    }
}

#[allow(dead_code)]
fn p(x: f64, y: f64, z: f64) -> Vec4D<F> {
    point(F(x), F(y), F(z))
}

#[allow(dead_code)]
fn v(x: f64, y: f64, z: f64) -> Vec4D<F> {
    vector(F(x), F(y), F(z))
}

#[allow(dead_code)]
fn rgb(r: f64, g: f64, b: f64) -> Pixel<F> {
    Pixel::new_rgb(F(r), F(g), F(b))
}

#[allow(dead_code)]
fn identity() -> Matrix4x4<F> {
    Matrix::identity()
}

#[allow(dead_code)]
fn translation(x: f64, y: f64, z: f64) -> Matrix4x4<F> {
    Matrix4x4::new_translation(F(x), F(y), F(z))
}

#[allow(dead_code)]
fn scaling(x: f64, y: f64, z: f64) -> Matrix4x4<F> {
    Matrix4x4::new_scaling(F(x), F(y), F(z))
}

#[allow(dead_code)]
fn material(
    color: Pixel<F>,
    ambient: f64,
    diffuse: f64,
    specular: f64,
    shininess: f64,
    reflectiveness: f64,
    transparency: f64,
    refractive_index: f64,
) -> Material<F> {
    Material::new(
        color,
        F(ambient),
        F(diffuse),
        F(specular),
        F(shininess),
        F(reflectiveness),
        F(transparency),
        F(refractive_index),
    )
}

#[allow(dead_code)]
fn sphere() -> Shape<F> {
    Shape::default().unwrap()
}

fn picture() -> Canvas<F> {
    let mut c = Canvas::new(2, 2);
    c.draw(0, 0, Pixel::white()).unwrap();
    c.draw(1, 0, Pixel::green()).unwrap();
    c.draw(1, 1, Pixel::red()).unwrap();
    c
}

#[test]
fn pixel_approx_eq() {
    assert!(!Pixel::<F>::white().approx_eq(Pixel::red()));
    let c1 = rgb(0.9, 0.1, 0.000000000000001);
    let c2 = rgb(0.90000000007, 0.1, 0.0);
    assert!(c1.approx_eq(c2));
}

#[test]
fn pixel_add() {
    let c1 = rgb(0.9, 0.6, 0.75);
    let c2 = rgb(0.7, 0.1, 0.25);
    assert!((c1 + c2).approx_eq(rgb(1.6, 0.7, 1.0)));
}

#[test]
fn pixel_sub() {
    let c1 = rgb(0.9, 0.6, 0.75);
    let c2 = rgb(0.7, 0.1, 0.25);
    assert!((c1 - c2).approx_eq(rgb(0.2, 0.5, 0.5)));
}

#[test]
fn scalar_mul() {
    let c1 = rgb(0.2, 0.3, 0.4);
    assert!((c1 * F(2.0)).approx_eq(rgb(0.4, 0.6, 0.8)));
}

#[test]
fn blend() {
    let c1 = rgb(1.0, 0.2, 0.4);
    let c2 = rgb(0.9, 1.0, 0.1);
    assert!(c1.blend(c2).approx_eq(rgb(0.9, 0.2, 0.04)));
}

#[test]
fn blend_lighten_only_takes_the_brighter_channel() {
    let c1 = rgb(1.0, 0.2, 0.4);
    let c2 = rgb(0.9, 1.0, 0.4);
    assert_eq!(c1.blend_lighten_only(c2), rgb(1.0, 1.0, 0.4));
    assert_eq!(c2.blend_lighten_only(c1), rgb(1.0, 1.0, 0.4));
}

#[test]
fn pixel_constants_and_bytes() {
    assert_eq!(Pixel::<F>::red(), rgb(1., 0., 0.));
    assert_eq!(Pixel::<F>::green(), rgb(0., 1., 0.));
    assert_eq!(Pixel::<F>::blue(), rgb(0., 0., 1.));
    assert_eq!(Pixel::<F>::white(), rgb(1., 1., 1.));
    assert_eq!(Pixel::<F>::black(), rgb(0., 0., 0.));
    assert_eq!(Pixel::<F>::default(), rgb(0., 0., 0.));
    assert_eq!(rgb(-1., 0.5, -0.25).abs(), rgb(1., 0.5, 0.25));
    assert_eq!(rgb(1., 2., 3.).map(|c| c * F(2.)), rgb(2., 4., 6.));
    assert_eq!(rgb(1., 2., 3.).combine(rgb(3., 2., 1.), |a, b| a - b), rgb(-2., 0., 2.));
    assert!(Pixel::<F>::from_bytes((255, 0, 51)).approx_eq(rgb(1., 0., 0.2)));
}

#[test]
fn ray_new() {
    let o = p(1., 2., 3.);
    let d = v(4., 5., 6.);
    let r = Ray::new(o.clone(), d.clone());
    assert!(r.origin.approx_eq(&o));
    assert!(r.direction.approx_eq(&d));
}

#[test]
fn position() {
    let r = Ray::new(p(2., 3., 4.), v(1., 0., 0.));
    assert!(r.position(F(0.)).approx_eq(&p(2., 3., 4.)));
    assert!(r.position(F(1.)).approx_eq(&p(3., 3., 4.)));
    assert!(r.position(F(-1.)).approx_eq(&p(1., 3., 4.)));
    assert!(r.position(F(2.5)).approx_eq(&p(4.5, 3., 4.)));
}

#[test]
fn transform_translate() {
    let r = Ray::new(p(1., 2., 3.), v(0., 1., 0.));
    let m = translation(3., 4., 5.);
    let r2 = r.transform(&m);
    assert!(r2.origin.approx_eq(&p(4., 6., 8.)));
    assert!(r2.direction.approx_eq(&v(0., 1., 0.)));
}

#[test]
fn transform_scale() {
    let r = Ray::new(p(1., 2., 3.), v(0., 1., 0.));
    let m = scaling(2., 3., 4.);
    let r2 = r.transform(&m);
    assert!(r2.origin.approx_eq(&p(2., 6., 12.)));
    assert!(r2.direction.approx_eq(&v(0., 3., 0.)));
}

#[test]
fn canvas_read_and_write() {
    let c = picture();
    assert!(c.data[0].approx_eq(Pixel::white()));
    assert!(c.data[1].approx_eq(Pixel::green()));
    assert!(c.data[2].approx_eq(Pixel::default()));
    assert!(c.data[3].approx_eq(Pixel::red()));
}

#[test]
fn canvas_ppm_header() {
    let c: Canvas<F> = Canvas::new(20, 10);
    assert_eq!(&c.as_ppm().lines().take(3).collect::<Vec<_>>().join("\n"), "P3\n20 10\n255");
}

#[test]
fn canvas_iter_rows() {
    let c = picture();
    let mut i = c.iter_rows().into_iter();
    let mut row1 = i.next().unwrap().into_iter();
    let mut row2 = i.next().unwrap().into_iter();
    assert!(i.next().is_none());
    assert!(row1.next().unwrap().approx_eq(Pixel::white()));
    assert!(row1.next().unwrap().approx_eq(Pixel::green()));
    assert!(row2.next().unwrap().approx_eq(Pixel::default()));
    assert!(row2.next().unwrap().approx_eq(Pixel::red()));
}

#[test]
fn canvas_ppm_data() {
    let mut c: Canvas<F> = Canvas::new(2, 2);
    c.draw(0, 0, Pixel::white() * F(0.5)).unwrap();
    c.draw(1, 1, Pixel::red()).unwrap();
    c.draw(1, 0, Pixel::white() * F(10.0)).unwrap();
    let s = c.as_ppm();
    assert_eq!(&s, "P3\n2 2\n255\n128 128 128 255 255 255\n0 0 0 255 0 0\n");
}

#[test]
fn ppm_ends_in_newline_and_wraps_long_rows() {
    let c: Canvas<F> = Canvas::new(5, 3);
    assert_eq!(c.as_ppm().chars().last(), Some('\n'));
    let mut wide: Canvas<F> = Canvas::new(10, 2);
    for y in 0..2 {
        for x in 0..10 {
            wide.draw(x, y, rgb(1., 0.8, 0.6)).unwrap();
        }
    }
    let text = wide.as_ppm();
    let lines: Vec<&str> = text.lines().collect();
    assert_eq!(lines.len(), 3 + 4);
    assert_eq!(lines[3], "255 204 153 255 204 153 255 204 153 255 204 153 255 204 153 255 204");
    assert_eq!(lines[4], "153 255 204 153 255 204 153 255 204 153 255 204 153");
    assert!(lines.iter().all(|l| l.len() <= 70));
}

#[test]
fn draw_beyond_the_canvas_names_the_coordinate() {
    let mut c = picture();
    assert_eq!(
        c.draw(2, 0, Pixel::red()),
        Err("Tried accessing canvas out of bounds. Max x-index=1, actual index=2.".to_string())
    );
    assert_eq!(
        c.draw(1, 17, Pixel::red()),
        Err("Tried accessing canvas out of bounds. Max y-index=1, actual index=17.".to_string())
    );
    assert!(c.data[1].approx_eq(Pixel::green()));
    assert!(c.get(2, 0).is_none());
    assert!(c.get(0, 2).is_none());
    assert_eq!(c.get(1, 0), Some(&Pixel::green()));
    assert_eq!((c.width(), c.height(), c.to_row_major(1, 1)), (2, 2, 3));
    assert_eq!(c.iter().count(), 4);
    assert_eq!(c.iter_row(5).len(), 0);
}

#[test]
fn translate_point() {
    let q = p(-3., 4., 5.);
    assert!(q.translate(F(5.), F(-3.), F(2.)).approx_eq(&p(2., 1., 7.)));
    let t = translation(5., -3., 2.).invert().unwrap();
    assert!((t * q).approx_eq(&p(-8., 7., 3.)));
}

#[test]
fn translate_vec() {
    let q = v(-3., 4., 5.);
    assert!(q.translate(F(5.), F(-3.), F(2.)).approx_eq(&v(-3., 4., 5.)));
}

#[test]
fn scale_point() {
    let q = p(-4., 6., 8.);
    assert!(q.scale(F(2.), F(3.), F(4.)).approx_eq(&p(-8., 18., 32.)));
}

#[test]
fn scale_vector() {
    let q = v(-4., 6., 8.);
    assert!(q.scale(F(2.), F(3.), F(4.)).approx_eq(&v(-8., 18., 32.)));
    let t = scaling(2., 3., 4.).invert().unwrap();
    assert!((t * q).approx_eq(&v(-2., 2., 2.)));
}

#[test]
fn relection_scale() {
    let q = point(2, 3, 4);
    assert_eq!(q.scale(-1, 1, 1), point(-2, 3, 4));
}

#[test]
fn rotate_x() {
    let q = p(0., 1., 0.);
    let half_quarter = Matrix4x4::new_x_rotation(F(consts::FRAC_PI_4));
    assert!((half_quarter * q.clone()).approx_eq(&p(0., consts::SQRT_2 / 2., consts::SQRT_2 / 2.)));
    assert!(q.rotate_x(F(consts::FRAC_PI_2)).approx_eq(&p(0., 0., 1.)));
}

#[test]
fn rotate_y() {
    let q = p(0., 0., 1.);
    let half_quarter = Matrix4x4::new_y_rotation(F(consts::FRAC_PI_4));
    assert!((half_quarter * q.clone()).approx_eq(&p(consts::SQRT_2 / 2., 0., consts::SQRT_2 / 2.)));
    assert!(q.rotate_y(F(consts::FRAC_PI_2)).approx_eq(&p(1., 0., 0.)));
}

#[test]
fn rotate_z() {
    let q = p(0., 1., 0.);
    let half_quarter = Matrix4x4::new_z_rotation(F(consts::FRAC_PI_4));
    assert!((half_quarter * q.clone()).approx_eq(&p(-consts::SQRT_2 / 2., consts::SQRT_2 / 2., 0.)));
    assert!(q.rotate_z(F(consts::FRAC_PI_2)).approx_eq(&p(-1., 0., 0.)));
}

#[test]
fn shear() {
    let q = p(2., 3., 4.);
    let z = F(0.);
    let o = F(1.);
    assert!(q.shear(o, z, z, z, z, z).approx_eq(&p(5., 3., 4.)));
    assert!(q.shear(z, o, z, z, z, z).approx_eq(&p(6., 3., 4.)));
    assert!(q.shear(z, z, o, z, z, z).approx_eq(&p(2., 5., 4.)));
    assert!(q.shear(z, z, z, o, z, z).approx_eq(&p(2., 7., 4.)));
    assert!(q.shear(z, z, z, z, o, z).approx_eq(&p(2., 3., 6.)));
    assert!(q.shear(z, z, z, z, z, o).approx_eq(&p(2., 3., 7.)));
}

#[test]
fn transforms_in_place_and_chained() {
    let mut q = point(1, 2, 3);
    q.translate_mut(1, 1, 1);
    assert_eq!(q, point(2, 3, 4));
    q.scale_mut(2, 2, 2);
    assert_eq!(q, point(4, 6, 8));
    q.shear_mut(1, 0, 0, 0, 0, 0);
    assert_eq!(q, point(10, 6, 8));
    let mut r = p(0., 1., 0.);
    r.rotate_x_mut(F(consts::FRAC_PI_2));
    assert!(r.approx_eq(&p(0., 0., 1.)));
    r.rotate_y_mut(F(consts::FRAC_PI_2));
    assert!(r.approx_eq(&p(1., 0., 0.)));
    r.rotate_z_mut(F(consts::FRAC_PI_2));
    assert!(r.approx_eq(&p(0., 1., 0.)));
    // chaining applies the first transformation first
    let m = Matrix4x4::new_x_rotation(F(consts::FRAC_PI_2))
        .and_scale(F(5.), F(5.), F(5.))
        .and_translate(F(10.), F(5.), F(7.));
    assert!((m * p(1., 0., 1.)).approx_eq(&p(15., 0., 7.)));
    let n = Matrix::<i32, N4, N4>::identity().and_shear(0, 0, 1, 0, 0, 0).and_scale(2, 3, 4);
    assert_eq!(n * point(1, 1, 1), point(2, 6, 4));
    let k = identity().and_rotate_x(F(consts::FRAC_PI_2)).and_rotate_y(F(consts::FRAC_PI_2)).and_rotate_z(F(consts::FRAC_PI_2));
    assert!((k * p(0., 1., 0.)).approx_eq(&p(0., 1., 0.)));
}

#[test]
fn view_looks_down_minus_z() {
    let m = Matrix4x4::new_view(&p(0., 0., 8.), &p(0., 0., 0.), &v(0., 1., 0.));
    // the eye is at the origin of camera space, what it looks at lies at -z
    assert!((m.clone() * p(0., 0., 8.)).approx_eq(&p(0., 0., 0.)));
    assert!((m.clone() * p(0., 0., 0.)).approx_eq(&p(0., 0., -8.)));
    assert!((m * p(0., 1., 8.)).approx_eq(&p(0., 1., 0.)));
}

#[test]
fn mag() {
    assert!(F(1.0).approx_eq(v(1.0, 0.0, 0.0).mag()));
    assert!(F(1.0).approx_eq(v(0.0, 1.0, 0.0).mag()));
    assert!(F(1.0).approx_eq(v(0.0, 0.0, 1.0).mag()));
    assert!(F(1.0).approx_eq(v(0.0, 0.0, -1.0).mag()));
    assert!(F(2.0_f64.sqrt()).approx_eq(v(1.0, 1.0, 0.0).mag()));
    assert!(F(3.0_f64.sqrt()).approx_eq(v(1.0, 1.0, 1.0).mag()));
    assert!(F(5.0).approx_eq(v(5.0, 0.0, 0.0).mag()));
}

#[test]
fn unit() {
    assert!(v(1.0, 0.0, 0.0).approx_eq(&v(4.0, 0.0, 0.0).unit()));
    assert!(v(1.0 / 14.0_f64.sqrt(), 2.0 / 14.0_f64.sqrt(), 3.0 / 14.0_f64.sqrt())
        .approx_eq(&v(1.0, 2.0, 3.0).unit()));
    assert!(F(1.0).approx_eq(v(1.0, 2.0, 3.0).unit().mag()));
}

#[test]
fn reflect() {
    let a = v(1., -1., 0.);
    let n = v(0., 1., 0.);
    let r = a.reflect(&n);
    assert!(r.approx_eq(&v(1., 1., 0.)));
}

#[test]
fn reflect_slanted() {
    let a = v(0., -1., 0.);
    let s = std::f64::consts::SQRT_2 / 2.0;
    let n = v(s, s, 0.);
    let r = a.reflect(&n);
    assert!(r.approx_eq(&v(1., 0., 0.)));
}

#[test]
fn vectors_scalar_prod() {
    let v1 = v(1.0, -2.0, 3.0);
    let v2 = v(5.0, 8.2, -3.1);
    assert!(v1.scalar_prod(v2).approx_eq(F(5.0 - 16.4 - 9.3)));
}

#[test]
fn norm_sq_of_integers() {
    assert_eq!(vector(1, 2, 3).norm_sq(), 14);
}
