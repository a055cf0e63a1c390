//! A matrix as text, its columns lined up.
use super::prelude::{spec_zero, total_add, zero, Matrix};
use crate::primitives::scalar::obeys_order;
use crate::utils::text::{decimal, decimal_string, join, join_by, lemma_views_push, views};
use crate::utils::typelevel_nums::{Nat, Val};
use std::fmt::Debug;
use std::ops::Add;
use vstd::prelude::*;
use vstd::std_specs::cmp::PartialOrdIs;
use vstd::std_specs::convert::FromSpec;
use vstd::std_specs::ops::AddSpec;
use vstd::string::StringExecFns;

verus! {

/// The text that `format!("{:?}", x)` of std gives for a value.
#[verifier::external_body]
fn debug_text<T: Debug>(x: &T) -> (r: String) {
    format!("{:?}", x)
}

/// `d` is a text that the `Debug` formatting of std gave for `x`.
pub closed spec fn is_debug_text<T: Debug>(x: T, d: Seq<char>) -> bool {
    exists|s: String| #[trigger] call_ensures(debug_text::<T>, (&x,), s) && s@ == d
}

/// `s` is the text of an entry: for an entry that is not below zero, a
/// space and the text of the entry plus zero (which is the entry, but for a
/// zero with a sign, whose sign it drops); else the text of the entry, which
/// brings its sign along.
pub open spec fn is_cell_text<T: Debug + PartialOrd + Add<Output = T> + From<i8>>(
    x: T,
    s: Seq<char>,
) -> bool {
    if x.is_ge(&spec_zero::<T>()) {
        exists|d: Seq<char>| #[trigger]
            is_debug_text(x.add_spec(spec_zero::<T>()), d) && s == " "@ + d
    } else {
        is_debug_text(x, s)
    }
}

/// The length in bytes of the longest of the first `k` texts.
pub open spec fn longest(cells: Seq<usize>, k: int) -> usize
    decreases k,
{
    if k <= 0 {
        0
    } else if cells[k - 1] > longest(cells, k - 1) {
        cells[k - 1]
    } else {
        longest(cells, k - 1)
    }
}

/// `n` spaces.
pub open spec fn spaces(n: int) -> Seq<char>
    decreases n,
{
    if n <= 0 {
        Seq::empty()
    } else {
        spaces(n - 1).push(' ')
    }
}

/// A text with spaces behind it, as many as it lacks to `width`
/// characters.
pub open spec fn padded(s: Seq<char>, width: int) -> Seq<char> {
    s + spaces(width - s.len())
}

/// A text with spaces behind it, as many as it lacks to `width`
/// characters.
pub fn pad(s: &String, width: usize) -> (r: String)
    ensures
        r@ == padded(s@, width as int),
{
    let mut out = s.clone();
    let mut n: usize = s.as_str().unicode_len();
    let ghost start = n;
    proof {
        reveal_strlit(" ");
        assert(out@ =~= s@ + spaces(0));
    }
    while n < width
        invariant
            start == s@.len(),
            start <= n,
            n <= width || n == start,
            out@ == s@ + spaces(n - start),
        decreases width - n,
    {
        out.append(" ");
        proof {
            reveal_strlit(" ");
            assert(" "@ =~= seq![' ']);
            assert(spaces(n + 1 - start) == spaces(n - start).push(' '));
            assert(out@ =~= s@ + spaces(n + 1 - start));
        }
        n += 1;
    }
    assert(spaces(n - start) =~= spaces(width - start));
    out
}

/// One line of the text of a matrix: the texts of a row, each as wide as
/// the longest, with one space between each two, between bars.
pub open spec fn row_line(cells: Seq<Seq<char>>, width: int) -> Seq<char> {
    "    |"@ + join_by(Seq::new(cells.len(), |j: int| padded(cells[j], width)), " "@) + " |"@
}

/// The text of a matrix of `m` rows and `n` columns whose entries have the
/// given texts, of which the longest has `width` bytes: a line that names the
/// dimensions, then one line per row.
pub open spec fn matrix_text(m: nat, n: nat, cells: Seq<Seq<char>>, width: int) -> Seq<char> {
    "Matrix "@ + decimal(m) + "x"@ + decimal(n) + "\n"@ + join_by(
        Seq::new(m, |i: int| row_line(cells.subrange(n * i, n * i + n), width)),
        "\n"@,
    ) + "\n"@
}

/// The lengths in bytes of texts, as machine integers.
pub open spec fn byte_lens(cells: Seq<Seq<char>>) -> Seq<usize> {
    Seq::new(cells.len(), |k: int| vstd::utf8::encode_utf8(cells[k]).len() as usize)
}

/// `cells` are the texts of the entries, one by one.
pub open spec fn are_cell_texts<T: Debug + PartialOrd + Add<Output = T> + From<i8>>(
    data: Seq<T>,
    cells: Seq<Seq<char>>,
) -> bool {
    &&& cells.len() == data.len()
    &&& forall|k: int| 0 <= k < data.len() ==> is_cell_text(data[k], #[trigger] cells[k])
}

/// Zero can be added to an entry.
pub open spec fn takes_zero<T: Add<Output = T> + From<i8>>(x: T) -> bool {
    total_add::<T>() || (T::obeys_from_spec() && x.add_req(spec_zero::<T>()))
}

/// The text of one entry.
pub fn cell_text<T: Debug + Copy + PartialOrd + Add<Output = T> + From<i8>>(x: T) -> (r: String)
    requires
        takes_zero(x),
    ensures
        obeys_order::<T>() && T::obeys_from_spec() && T::obeys_add_spec() ==> is_cell_text(x, r@),
{
    let z: T = zero();
    if x >= z {
        // adding zero drops the sign of a zero
        let d = debug_text(&(x + z));
        let mut s = String::from_str(" ");
        s.append(d.as_str());
        proof {
            if obeys_order::<T>() && T::obeys_from_spec() && T::obeys_add_spec() {
                assert(is_debug_text(x.add_spec(spec_zero::<T>()), d@) && s@ == " "@ + d@);
            }
        }
        s
    } else {
        let d = debug_text(&x);
        proof {
            if obeys_order::<T>() && T::obeys_from_spec() && T::obeys_add_spec() {
                assert(is_debug_text(x, d@));
            }
        }
        d
    }
}

impl<T, M: Nat + Val, N: Nat + Val> Matrix<T, M, N> where
    T: Debug + Copy + PartialOrd + Add<Output = T> + From<i8>,
 {
    /// The matrix as text: a line that names the dimensions, then one line
    /// per row, the entries between bars, each as wide as the longest.
    pub fn to_text(&self) -> (r: String)
        requires
            self.wf(),
            forall|k: int| 0 <= k < self@.len() ==> takes_zero(#[trigger] self@[k]),
        ensures
            exists|cells: Seq<Seq<char>>|
                {
                    &&& cells.len() == self@.len()
                    &&& obeys_order::<T>() && T::obeys_from_spec() && T::obeys_add_spec()
                        ==> are_cell_texts(self@, cells)
                    &&& r@ == #[trigger] matrix_text(
                        M::spec_val(),
                        N::spec_val(),
                        cells,
                        longest(byte_lens(cells), cells.len() as int) as int,
                    )
                },
    {
        let m = M::val();
        let n = N::val();
        let ghost exact = obeys_order::<T>() && T::obeys_from_spec() && T::obeys_add_spec();
        // the texts of the entries, and the length of the longest
        let mut texts: Vec<String> = Vec::new();
        let mut width: usize = 0;
        let mut k: usize = 0;
        while k < self.data.len()
            invariant
                self.wf(),
                forall|j: int| 0 <= j < self@.len() ==> takes_zero(#[trigger] self@[j]),
                exact == (obeys_order::<T>() && T::obeys_from_spec() && T::obeys_add_spec()),
                k <= self@.len(),
                texts@.len() == k,
                exact ==> forall|j: int|
                    0 <= j < k ==> is_cell_text(self@[j], #[trigger] views(texts@)[j]),
                width == longest(byte_lens(views(texts@)), k as int),
            decreases self@.len() - k,
        {
            let s = cell_text(self.data[k]);
            let len = s.as_str().len();
            let ghost before = texts@;
            texts.push(s);
            proof {
                lemma_views_push(before, s);
                assert(byte_lens(views(texts@)) =~= byte_lens(views(before)).push(len));
                lemma_longest_prefix(byte_lens(views(before)), byte_lens(views(texts@)), k as int);
            }
            if len > width {
                width = len;
            }
            k += 1;
        }
        let ghost cells = views(texts@);
        // the lines
        let mut lines: Vec<String> = Vec::new();
        let mut i: usize = 0;
        while i < m
            invariant
                self.wf(),
                m == M::spec_val(),
                n == N::spec_val(),
                texts@.len() == self@.len(),
                cells == views(texts@),
                i <= m,
                views(lines@) == Seq::new(
                    i as nat,
                    |x: int| row_line(cells.subrange(n * x, n * x + n), width as int),
                ),
            decreases m - i,
        {
            let mut row: Vec<String> = Vec::new();
            let mut j: usize = 0;
            proof {
                super::iter::lemma_dim_product(m as int, n as int, i as int);
                assert(n * i == i * n) by (nonlinear_arith);
                assert(n * m == m * n) by (nonlinear_arith);
            }
            let ghost part = cells.subrange(n * i, n * i + n);
            while j < n
                invariant
                    texts@.len() == self@.len(),
                    self@.len() == m * n,
                    m * n <= usize::MAX,
                    cells == views(texts@),
                    0 <= n * i,
                    n * i + n <= m * n,
                    part == cells.subrange(n * i, n * i + n),
                    j <= n,
                    views(row@) == Seq::new(j as nat, |y: int| padded(part[y], width as int)),
                decreases n - j,
            {
                let cell = pad(&texts[n * i + j], width);
                let ghost before = row@;
                row.push(cell);
                proof {
                    lemma_views_push(before, cell);
                    assert(part[j as int] == cells[n * i + j]);
                    assert(views(row@) =~= Seq::new(
                        (j + 1) as nat,
                        |y: int| padded(part[y], width as int),
                    ));
                }
                j += 1;
            }
            let mut line = String::from_str("    |");
            line.append(join(&row, " ").as_str());
            line.append(" |");
            let ghost before = lines@;
            lines.push(line);
            proof {
                lemma_views_push(before, line);
                assert(Seq::new(part.len(), |y: int| padded(part[y], width as int)) =~= views(
                    row@,
                ));
                assert(views(lines@) =~= Seq::new(
                    (i + 1) as nat,
                    |x: int| row_line(cells.subrange(n * x, n * x + n), width as int),
                ));
            }
            i += 1;
        }
        let mut out = String::from_str("Matrix ");
        out.append(decimal_string(m).as_str());
        out.append("x");
        out.append(decimal_string(n).as_str());
        out.append("\n");
        out.append(join(&lines, "\n").as_str());
        out.append("\n");
        proof {
            assert(out@ =~= matrix_text(
                M::spec_val(),
                N::spec_val(),
                cells,
                longest(byte_lens(cells), cells.len() as int) as int,
            ));
            if exact {
                assert(are_cell_texts(self@, cells));
            }
        }
        out
    }
}

/// The longest of the first `k` texts does not change when a text is added
/// behind them.
pub proof fn lemma_longest_prefix(before: Seq<usize>, after: Seq<usize>, k: int)
    requires
        0 <= k <= before.len(),
        after.len() >= before.len(),
        forall|j: int| 0 <= j < before.len() ==> after[j] == before[j],
    ensures
        longest(after, k) == longest(before, k),
    decreases k,
{
    if k > 0 {
        lemma_longest_prefix(before, after, k - 1);
    }
}

} // verus!
