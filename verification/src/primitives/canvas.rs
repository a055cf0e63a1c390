//! The picture: a grid of pixels, and its text in the PPM format.
use super::pixel::Pixel;
use super::scalar::{obeys_field, obeys_order, total_field, Elementary, Scalar};
use super::tmatrix::iter::{col_len, col_of, lemma_col_position, row_of};
use super::tmatrix::prelude::{lemma_row_major_bound, one, spec_one, spec_zero, zero};
use crate::utils::text::{decimal, decimal_string, join, join_by, lemma_views_push, views};
use crate::utils::{clamp, clamp_spec, lines_of, split_long_lines, whitespace_words, wrapped};
use vstd::prelude::*;
use vstd::std_specs::cmp::PartialOrdIs;
use vstd::std_specs::convert::FromSpec;
use vstd::std_specs::ops::MulSpec;
use vstd::string::StringExecFns;

verus! {

pub struct Canvas<T> {
    pub data: Vec<Pixel<T>>,
    pub width: usize,
    pub height: usize,
}

/// Which coordinate of a pixel lies beyond the canvas.
#[derive(Clone, Copy, Debug, PartialEq, Eq, Structural)]
pub enum Axis {
    X,
    Y,
}

/// The message for a pixel beyond the canvas: the coordinate that is out
/// of bounds, the largest index that is not, and the index given.
pub open spec fn out_of_bounds_message(axis: Axis, max: nat, actual: nat) -> Seq<char> {
    "Tried accessing canvas out of bounds. Max "@ + (match axis {
        Axis::X => "x"@,
        Axis::Y => "y"@,
    }) + "-index="@ + decimal(max) + ", actual index="@ + decimal(actual) + "."@
}

/// The message for a pixel beyond the canvas.
pub fn out_of_bounds(axis: Axis, max: usize, actual: usize) -> (r: String)
    ensures
        r@ == out_of_bounds_message(axis, max as nat, actual as nat),
{
    let mut s = String::from_str("Tried accessing canvas out of bounds. Max ");
    match axis {
        Axis::X => s.append("x"),
        Axis::Y => s.append("y"),
    }
    s.append("-index=");
    s.append(decimal_string(max).as_str());
    s.append(", actual index=");
    s.append(decimal_string(actual).as_str());
    s.append(".");
    s
}

/// 255 as a scalar: the largest value of a channel in the PPM text.
pub open spec fn spec_channel_max<T: Scalar>() -> T {
    T::from_spec(51i8).mul_spec(T::from_spec(5i8))
}

/// Where the order of the scalar is specified, so are its constants, and
/// zero is not above one.
pub open spec fn unit_interval<T: Scalar>() -> bool {
    obeys_order::<T>() ==> T::obeys_from_spec() && spec_zero::<T>().is_le(&spec_one::<T>())
}

/// `b` is the value of a channel in the PPM text: what the scalar's
/// rounding returns for the channel, clamped to the range from 0 to 1 and
/// scaled to the range from 0 to 255.
pub open spec fn is_channel_byte<T: Scalar>(c: T, b: usize) -> bool {
    call_ensures(
        T::round_to_usize,
        (clamp_spec(c, spec_zero::<T>(), spec_one::<T>()).mul_spec(spec_channel_max::<T>()),),
        b,
    )
}

/// Clamp the value to the range from 0 to 1 and then map that range onto
/// 0 to 255
pub fn clamp_and_normalize<T: Scalar>(num: T) -> (b: usize)
    requires
        total_field::<T>(),
        unit_interval::<T>(),
    ensures
        obeys_field::<T>() ==> is_channel_byte(num, b),
{
    let max = T::from(51i8) * T::from(5i8);
    (clamp(num, zero(), one()) * max).round_to_usize()
}

/// The three values of a pixel in the PPM text, with one space between
/// each two.
pub open spec fn pixel_text(bytes: (usize, usize, usize)) -> Seq<char> {
    decimal(bytes.0 as nat) + " "@ + decimal(bytes.1 as nat) + " "@ + decimal(bytes.2 as nat)
}

/// The values of the pixels of one row, with one space between each two.
pub open spec fn row_text(row: Seq<(usize, usize, usize)>) -> Seq<char> {
    join_by(Seq::new(row.len(), |k: int| pixel_text(row[k])), " "@)
}

/// The text of one row in the PPM text: its values on lines of at most
/// 70 characters, broken between values.
pub open spec fn row_lines(row: Seq<(usize, usize, usize)>) -> Seq<char> {
    join_by(lines_of(wrapped(70, whitespace_words(row_text(row)))), "\n"@)
}

/// The first line of the PPM text: the format, the dimensions and the
/// largest value of a channel.
pub open spec fn ppm_header(width: nat, height: nat) -> Seq<char> {
    "P3\n"@ + decimal(width) + " "@ + decimal(height) + "\n255\n"@
}

/// The values of the pixels of row `i` of a picture `width` wide.
pub open spec fn row_bytes(bytes: Seq<(usize, usize, usize)>, width: int, i: int) -> Seq<
    (usize, usize, usize),
> {
    bytes.subrange(width * i, width * i + width)
}

/// The PPM text of a picture with the given values of its pixels, row
/// after row: the header, the rows, each on lines of its own, and a newline
/// at the end.
pub open spec fn ppm_text(width: nat, height: nat, bytes: Seq<(usize, usize, usize)>) -> Seq<
    char,
> {
    ppm_header(width, height) + join_by(
        Seq::new(height, |i: int| row_lines(row_bytes(bytes, width as int, i))),
        "\n"@,
    ) + "\n"@
}

/// `bytes` are the values of the pixels in the PPM text.
pub open spec fn are_channel_bytes<T: Scalar>(
    data: Seq<Pixel<T>>,
    bytes: Seq<(usize, usize, usize)>,
) -> bool {
    &&& bytes.len() == data.len()
    &&& forall|k: int|
        0 <= k < data.len() ==> {
            &&& is_channel_byte(data[k].r, (#[trigger] bytes[k]).0)
            &&& is_channel_byte(data[k].g, bytes[k].1)
            &&& is_channel_byte(data[k].b, bytes[k].2)
        }
}

/// The pixel in column `c` and row `r` is one of those that
/// [`Canvas::draw_block`] draws around `(x, y)`.
pub open spec fn in_block(c: int, r: int, x: int, y: int, half_width: int, half_height: int) -> bool {
    y - half_height <= c < y + half_height && x - half_width <= r < x + half_width
}

/// Two cells of a grid have different places in the buffer.
pub proof fn lemma_cells_differ(w: int, c: int, r: int, c2: int, r2: int)
    by (nonlinear_arith)
    requires
        0 <= c < w,
        0 <= c2 < w,
        0 <= r,
        0 <= r2,
        c != c2 || r != r2,
    ensures
        w * r + c != w * r2 + c2,
{
}

impl<T: Scalar> Canvas<T> {
    /// The buffer holds one pixel for each place of the grid.
    pub open spec fn wf(&self) -> bool {
        self.data.len() == self.width * self.height
    }

    /// The pixel in row `i` and column `j`.
    pub open spec fn at(&self, i: int, j: int) -> Pixel<T> {
        self.data@[self.width * i + j]
    }

    /// A canvas of the given size, all black.
    pub fn new(width: usize, height: usize) -> (c: Self)
        requires
            width * height <= usize::MAX,
        ensures
            c.wf(),
            c.width == width,
            c.height == height,
            T::obeys_from_spec() ==> forall|k: int|
                0 <= k < c.data@.len() ==> #[trigger] c.data@[k] == Pixel::<T>::spec_black(),
    {
        let black: Pixel<T> = Pixel::black();
        let mut data: Vec<Pixel<T>> = Vec::new();
        let n = width * height;
        let mut k: usize = 0;
        while k < n
            invariant
                k <= n,
                data@.len() == k,
                forall|i: int| 0 <= i < k ==> #[trigger] data@[i] == black,
            decreases n - k,
        {
            data.push(black);
            k += 1;
        }
        Canvas { data, width, height }
    }

    pub fn width(&self) -> (r: usize)
        ensures
            r == self.width,
    {
        self.width
    }

    pub fn height(&self) -> (r: usize)
        ensures
            r == self.height,
    {
        self.height
    }

    /// The place in the buffer of the pixel in row `i` and column `j`.
    pub fn to_row_major(&self, i: usize, j: usize) -> (r: usize)
        requires
            self.width * i + j <= usize::MAX,
        ensures
            r == self.width * i + j,
    {
        assert(self.width * i >= 0) by (nonlinear_arith);
        self.width * i + j
    }

    /// Draw a pixel to the canvas: the pixel in column `x` and row `y`.
    /// Beyond the canvas nothing is drawn, and the message says which
    /// coordinate is out of bounds.
    pub fn draw(&mut self, x: usize, y: usize, pixel: Pixel<T>) -> (r: Result<(), String>)
        requires
            old(self).wf(),
            x >= old(self).width ==> old(self).width > 0,
            y >= old(self).height ==> old(self).height > 0,
        ensures
            final(self).wf(),
            final(self).width == old(self).width,
            final(self).height == old(self).height,
            r is Ok <==> x < old(self).width && y < old(self).height,
            r is Ok ==> final(self).data@ == old(self).data@.update(
                old(self).width * y + x,
                pixel,
            ),
            r matches Err(msg) ==> final(self).data@ == old(self).data@ && msg@ == if x
                >= old(self).width {
                out_of_bounds_message(Axis::X, (old(self).width - 1) as nat, x as nat)
            } else {
                out_of_bounds_message(Axis::Y, (old(self).height - 1) as nat, y as nat)
            },
    {
        if x < self.width {
            if y < self.height {
                proof {
                    lemma_row_major_bound(
                        self.height as int,
                        self.width as int,
                        y as int,
                        x as int,
                    );
                    assert(self.width * self.height == self.height * self.width)
                        by (nonlinear_arith);
                }
                let i = self.to_row_major(y, x);
                self.data[i] = pixel;
                Ok(())
            } else {
                Err(out_of_bounds(Axis::Y, self.height - 1, y))
            }
        } else {
            Err(out_of_bounds(Axis::X, self.width - 1, x))
        }
    }

    /// Draw a block of pixels around a place: the pixels whose column is
    /// less than `half_height` from `y` and whose row is less than
    /// `half_width` from `x` (towards the lower side, up to as far). What
    /// lies beyond the canvas is not drawn; the messages say what did.
    pub fn draw_block(
        &mut self,
        x: usize,
        y: usize,
        half_width: usize,
        half_height: usize,
        pixel: Pixel<T>,
    ) -> (errs: Vec<String>)
        requires
            old(self).wf(),
            old(self).width > 0,
            old(self).height > 0,
            half_height <= y,
            half_width <= x,
            y + half_height <= usize::MAX,
            x + half_width <= usize::MAX,
        ensures
            final(self).wf(),
            final(self).width == old(self).width,
            final(self).height == old(self).height,
            y + half_height <= old(self).width && x + half_width <= old(self).height
                ==> errs@.len() == 0,
            forall|c: int, r: int|
                0 <= c < old(self).width && 0 <= r < old(self).height ==> #[trigger] final(self).at(
                    r,
                    c,
                ) == if in_block(
                    c,
                    r,
                    x as int,
                    y as int,
                    half_width as int,
                    half_height as int,
                ) {
                    pixel
                } else {
                    old(self).at(r, c)
                },
    {
        let mut errs: Vec<String> = Vec::new();
        let ghost w = self.width as int;
        let ghost h = self.height as int;
        let mut i: usize = y - half_height;
        while i < y + half_height
            invariant
                self.wf(),
                self.width == old(self).width,
                self.height == old(self).height,
                w == self.width,
                h == self.height,
                w > 0,
                h > 0,
                half_height <= y,
                half_width <= x,
                y + half_height <= usize::MAX,
                x + half_width <= usize::MAX,
                y - half_height <= i <= y + half_height,
                y + half_height <= w && x + half_width <= h ==> errs@.len() == 0,
                forall|c: int, r: int|
                    0 <= c < w && 0 <= r < h ==> #[trigger] self.at(r, c) == if y - half_height
                        <= c < i && x - half_width <= r < x + half_width {
                        pixel
                    } else {
                        old(self).at(r, c)
                    },
            decreases y + half_height - i,
        {
            let mut j: usize = x - half_width;
            while j < x + half_width
                invariant
                    self.wf(),
                    self.width == old(self).width,
                    self.height == old(self).height,
                    w == self.width,
                    h == self.height,
                    w > 0,
                    h > 0,
                    half_width <= x,
                    x + half_width <= usize::MAX,
                    y - half_height <= i < y + half_height,
                    x - half_width <= j <= x + half_width,
                    y + half_height <= w && x + half_width <= h ==> errs@.len() == 0,
                    forall|c: int, r: int|
                        0 <= c < w && 0 <= r < h ==> #[trigger] self.at(r, c) == if (y
                            - half_height <= c < i && x - half_width <= r < x + half_width) || (c
                            == i && x - half_width <= r < j) {
                            pixel
                        } else {
                            old(self).at(r, c)
                        },
                decreases x + half_width - j,
            {
                let ghost before = *self;
                match self.draw(i, j, pixel) {
                    Err(e) => {
                        errs.push(e);
                        assert forall|c: int, r: int| 0 <= c < w && 0 <= r < h implies #[trigger] self.at(
                            r,
                            c,
                        ) == before.at(r, c) && !(c == i && r == j) by {}
                    },
                    Ok(()) => {
                        proof {
                            assert forall|c: int, r: int| 0 <= c < w && 0 <= r < h implies #[trigger] self.at(
                                r,
                                c,
                            ) == if c == i && r == j {
                                pixel
                            } else {
                                before.at(r, c)
                            } by {
                                lemma_row_major_bound(h, w, r, c);
                                lemma_row_major_bound(h, w, j as int, i as int);
                                assert(w * h == h * w) by (nonlinear_arith);
                                if !(c == i && r == j) {
                                    lemma_cells_differ(w, c, r, i as int, j as int);
                                }
                            }
                        }
                    },
                }
                j += 1;
            }
            i += 1;
        }
        errs
    }

    /// The pixel in column `x` and row `y`, if the canvas has it.
    pub fn get(&self, x: usize, y: usize) -> (r: Option<&Pixel<T>>)
        requires
            self.wf(),
        ensures
            r is Some <==> x < self.width && y < self.height,
            r matches Some(p) ==> *p == self.at(y as int, x as int),
    {
        if x < self.width && y < self.height {
            proof {
                lemma_row_major_bound(self.height as int, self.width as int, y as int, x as int);
                assert(self.width * self.height == self.height * self.width) by (nonlinear_arith);
            }
            Some(&self.data[self.to_row_major(y, x)])
        } else {
            None
        }
    }

    /// Iterate over all elements
    pub fn iter(&self) -> (r: std::slice::Iter<'_, Pixel<T>>)
        ensures
            vstd::std_specs::slice::into_iter_elts(r) == self.data@,
    {
        let r = self.data.iter();
        proof {
            broadcast use vstd::std_specs::slice::axiom_spec_slice_iter;

            assert(self.data@.as_ref().unref() =~= self.data@);
        }
        r
    }

    /// The pixels of the ith row of the Canvas; none for a row that the
    /// canvas does not have.
    pub fn iter_row(&self, i: usize) -> (r: Vec<&Pixel<T>>)
        requires
            self.wf(),
        ensures
            i < self.height ==> r@.unref() == row_of(self.data@, self.width as int, i as int),
            i >= self.height ==> r@.len() == 0,
    {
        let mut v: Vec<&Pixel<T>> = Vec::new();
        if i >= self.height {
            return v;
        }
        let mut j: usize = 0;
        while j < self.width
            invariant
                self.wf(),
                i < self.height,
                j <= self.width,
                v@.len() == j,
                forall|x: int|
                    0 <= x < j ==> *#[trigger] v@[x] == self.data@[self.width * i + x],
            decreases self.width - j,
        {
            proof {
                lemma_row_major_bound(self.height as int, self.width as int, i as int, j as int);
                assert(self.width * self.height == self.height * self.width) by (nonlinear_arith);
            }
            v.push(&self.data[self.to_row_major(i, j)]);
            j += 1;
        }
        proof {
            let w = self.width as int;
            assert(w * i + w <= w * self.height) by (nonlinear_arith)
                requires
                    0 <= i < self.height,
                    w >= 0,
            ;
            assert(w * i >= 0) by (nonlinear_arith)
                requires
                    0 <= i,
                    w >= 0,
            ;
            assert(v@.unref() =~= row_of(self.data@, w, i as int));
        }
        v
    }

    /// All rows of the Canvas, top to bottom
    pub fn iter_rows(&self) -> (r: Vec<Vec<&Pixel<T>>>)
        requires
            self.wf(),
        ensures
            r@.len() == self.height,
            forall|i: int|
                0 <= i < r@.len() ==> (#[trigger] r@[i])@.unref() == row_of(
                    self.data@,
                    self.width as int,
                    i,
                ),
    {
        let mut v: Vec<Vec<&Pixel<T>>> = Vec::new();
        let mut i: usize = 0;
        while i < self.height
            invariant
                self.wf(),
                i <= self.height,
                v@.len() == i,
                forall|x: int|
                    0 <= x < v@.len() ==> (#[trigger] v@[x])@.unref() == row_of(
                        self.data@,
                        self.width as int,
                        x,
                    ),
            decreases self.height - i,
        {
            v.push(self.iter_row(i));
            i += 1;
        }
        v
    }

    /// The values of the pixels of row `i` in the PPM text, with one space
    /// between each two.
    fn row_as_text(&self, i: usize) -> (r: (String, Ghost<Seq<(usize, usize, usize)>>))
        requires
            total_field::<T>(),
            unit_interval::<T>(),
            self.wf(),
            i < self.height,
        ensures
            r.0@ == row_text(r.1@),
            r.1@.len() == self.width,
            obeys_field::<T>() ==> forall|j: int|
                0 <= j < self.width ==> {
                    &&& is_channel_byte(self.at(i as int, j).r, (#[trigger] r.1@[j]).0)
                    &&& is_channel_byte(self.at(i as int, j).g, r.1@[j].1)
                    &&& is_channel_byte(self.at(i as int, j).b, r.1@[j].2)
                },
    {
        let mut row_buf: Vec<String> = Vec::new();
        let ghost mut bytes: Seq<(usize, usize, usize)> = Seq::empty();
        let mut j: usize = 0;
        while j < self.width
            invariant
                total_field::<T>(),
                unit_interval::<T>(),
                self.wf(),
                i < self.height,
                j <= self.width,
                bytes.len() == j,
                views(row_buf@) == Seq::new(j as nat, |k: int| pixel_text(bytes[k])),
                obeys_field::<T>() ==> forall|k: int|
                    0 <= k < j ==> {
                        &&& is_channel_byte(self.at(i as int, k).r, (#[trigger] bytes[k]).0)
                        &&& is_channel_byte(self.at(i as int, k).g, bytes[k].1)
                        &&& is_channel_byte(self.at(i as int, k).b, bytes[k].2)
                    },
            decreases self.width - j,
        {
            proof {
                lemma_row_major_bound(self.height as int, self.width as int, i as int, j as int);
                assert(self.width * self.height == self.height * self.width) by (nonlinear_arith);
            }
            let pixel = self.data[self.to_row_major(i, j)];
            let r = clamp_and_normalize(pixel.r);
            let g = clamp_and_normalize(pixel.g);
            let b = clamp_and_normalize(pixel.b);
            let mut text = decimal_string(r);
            text.append(" ");
            text.append(decimal_string(g).as_str());
            text.append(" ");
            text.append(decimal_string(b).as_str());
            let ghost before = row_buf@;
            let ghost old_bytes = bytes;
            row_buf.push(text);
            proof {
                bytes = bytes.push((r, g, b));
                lemma_views_push(before, text);
                assert(views(row_buf@) =~= Seq::new((j + 1) as nat, |k: int| pixel_text(bytes[k])))
                    by {
                    assert forall|k: int| 0 <= k < j implies pixel_text(bytes[k]) == pixel_text(
                        old_bytes[k],
                    ) by {}
                }
            }
            j += 1;
        }
        let line = join(&row_buf, " ");
        proof {
            assert(Seq::new(bytes.len(), |k: int| pixel_text(bytes[k])) =~= views(row_buf@));
        }
        (line, Ghost(bytes))
    }

    /// Return a PPM encoded version of the picture
    pub fn as_ppm(&self) -> (r: String)
        requires
            total_field::<T>(),
            unit_interval::<T>(),
            self.wf(),
        ensures
            exists|bytes: Seq<(usize, usize, usize)>|
                {
                    &&& bytes.len() == self.data@.len()
                    &&& obeys_field::<T>() ==> are_channel_bytes(self.data@, bytes)
                    &&& #[trigger] ppm_text(self.width as nat, self.height as nat, bytes) == r@
                },
    {
        let mut header = String::from_str("P3\n");
        header.append(decimal_string(self.width).as_str());
        header.append(" ");
        header.append(decimal_string(self.height).as_str());
        header.append("\n255\n");
        let mut lines: Vec<String> = Vec::new();
        let ghost mut bytes: Seq<(usize, usize, usize)> = Seq::empty();
        let mut i: usize = 0;
        while i < self.height
            invariant
                total_field::<T>(),
                unit_interval::<T>(),
                self.wf(),
                i <= self.height,
                bytes.len() == self.width * i,
                obeys_field::<T>() ==> forall|k: int|
                    0 <= k < bytes.len() ==> {
                        &&& is_channel_byte(self.data@[k].r, (#[trigger] bytes[k]).0)
                        &&& is_channel_byte(self.data@[k].g, bytes[k].1)
                        &&& is_channel_byte(self.data@[k].b, bytes[k].2)
                    },
                views(lines@) == Seq::new(
                    i as nat,
                    |x: int| row_lines(row_bytes(bytes, self.width as int, x)),
                ),
            decreases self.height - i,
        {
            let (row_line, Ghost(row)) = self.row_as_text(i);
            let short_lines = split_long_lines(70, row_line.as_str());
            let line = join(&short_lines, "\n");
            let ghost before = lines@;
            let ghost old_bytes = bytes;
            lines.push(line);
            proof {
                bytes = bytes + row;
                let w = self.width as int;
                assert(w * (i + 1) == w * i + w) by (nonlinear_arith);
                assert(w * i + w <= w * self.height) by (nonlinear_arith)
                    requires
                        i < self.height,
                        w >= 0,
                ;
                lemma_views_push(before, line);
                assert(row_bytes(bytes, w, i as int) =~= row);
                assert forall|x: int| 0 <= x < i implies #[trigger] row_bytes(bytes, w, x)
                    == row_bytes(old_bytes, w, x) by {
                    assert(w * x + w <= w * i) by (nonlinear_arith)
                        requires
                            0 <= x < i,
                            w >= 0,
                    ;
                    assert(w * x >= 0) by (nonlinear_arith)
                        requires
                            0 <= x,
                            w >= 0,
                    ;
                    assert(row_bytes(bytes, w, x) =~= row_bytes(old_bytes, w, x));
                }
                assert(views(lines@) =~= Seq::new(
                    (i + 1) as nat,
                    |x: int| row_lines(row_bytes(bytes, w, x)),
                ));
                if obeys_field::<T>() {
                    assert forall|k: int| 0 <= k < bytes.len() implies {
                        &&& is_channel_byte(self.data@[k].r, (#[trigger] bytes[k]).0)
                        &&& is_channel_byte(self.data@[k].g, bytes[k].1)
                        &&& is_channel_byte(self.data@[k].b, bytes[k].2)
                    } by {
                        if k >= old_bytes.len() {
                            let j = k - w * i;
                            assert(bytes[k] == row[j]);
                            assert(self.at(i as int, j) == self.data@[k]);
                        } else {
                            assert(bytes[k] == old_bytes[k]);
                        }
                    }
                }
            }
            i += 1;
        }
        let data = join(&lines, "\n");
        let mut out = header;
        out.append(data.as_str());
        out.append("\n");
        proof {
            assert(ppm_text(self.width as nat, self.height as nat, bytes) =~= out@);
            assert(bytes.len() == self.data@.len());
        }
        out
    }
}

} // verus!
