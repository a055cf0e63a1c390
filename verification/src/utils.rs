//! Small helpers shared by the rest of the crate.
use self::text::{join, join_by, lemma_views_push, views};
use vstd::prelude::*;
use vstd::std_specs::cmp::{PartialOrdIs, PartialOrdSpec};

pub mod text;
pub mod typelevel_nums;

verus! {

/// `a`, or the bound of `[min, max]` that it lies beyond.
pub open spec fn clamp_spec<N: PartialOrd>(a: N, min: N, max: N) -> N {
    if a.is_lt(&min) {
        min
    } else if a.is_gt(&max) {
        max
    } else {
        a
    }
}

/// Clamp function: restrict a value to the range from `min` to `max`.
pub fn clamp<N: PartialOrd>(a: N, min: N, max: N) -> (r: N)
    requires
        N::obeys_partial_cmp_spec() ==> min.is_le(&max),
    ensures
        N::obeys_partial_cmp_spec() ==> r == clamp_spec(a, min, max),
        r == a || r == min || r == max,
{
    if a < min {
        min
    } else if a > max {
        max
    } else {
        a
    }
}

/// The words of a text: its parts between whitespace, in order, as
/// `str::split_whitespace` of std yields them.
pub uninterp spec fn whitespace_words(s: Seq<char>) -> Seq<Seq<char>>;

/// The words of a line, with one space between each two.
pub open spec fn join_words(words: Seq<Seq<char>>) -> Seq<char> {
    join_by(words, seq![' '])
}

/// The length of a word in bytes.
pub open spec fn byte_len(word: Seq<char>) -> int {
    (vstd::utf8::encode_utf8(word).len() as usize) as int
}

/// Where the greedy rule stands after the first `k` words: the lines that
/// are closed, the words of the open line, and the length counted for it.
///
/// A word joins the open line while the counted length plus its own stays
/// below `max`; the count then grows by the word and one space. Otherwise the
/// open line is closed and the word opens the next, counted without a space.
pub open spec fn wrap_state(max: int, words: Seq<Seq<char>>, k: int) -> (
    Seq<Seq<Seq<char>>>,
    Seq<Seq<char>>,
    int,
)
    decreases k,
{
    if k <= 0 {
        (Seq::empty(), Seq::empty(), 0)
    } else {
        let (closed, open, length) = wrap_state(max, words, k - 1);
        let word = words[k - 1];
        if length + byte_len(word) < max {
            (closed, open.push(word), length + byte_len(word) + 1)
        } else {
            (closed.push(open), seq![word], byte_len(word))
        }
    }
}

/// The words of each line that the greedy rule makes of `words`.
pub open spec fn wrapped(max: int, words: Seq<Seq<char>>) -> Seq<Seq<Seq<char>>> {
    let (closed, open, length) = wrap_state(max, words, words.len() as int);
    closed.push(open)
}

/// The lines that hold the given words.
pub open spec fn lines_of(groups: Seq<Seq<Seq<char>>>) -> Seq<Seq<char>> {
    Seq::new(groups.len(), |i: int| join_words(groups[i]))
}

/// `str::split_whitespace` of std, its words collected into a list.
#[verifier::external_body]
fn split_whitespace(s: &str) -> (r: Vec<String>)
    ensures
        views(r@) == whitespace_words(s@),
{
    s.split_whitespace().map(|w| w.to_string()).collect()
}

/// The words of a line, with one space between each two.
pub fn join_with_space(words: &Vec<String>) -> (r: String)
    ensures
        r@ == join_words(views(words@)),
{
    proof {
        reveal_strlit(" ");
        assert(" "@ =~= seq![' ']);
    }
    join(words, " ")
}

/// Lay out words on lines by the greedy rule (see [`wrap_state`]).
pub fn wrap_words(max_length: usize, words: &Vec<String>) -> (r: Vec<String>)
    ensures
        views(r@) == lines_of(wrapped(max_length as int, views(words@))),
{
    let ghost w = views(words@);
    let mut length: usize = 0;
    let mut line_buf: Vec<String> = Vec::new();
    let mut buf: Vec<String> = Vec::new();
    let mut k: usize = 0;
    while k < words.len()
        invariant
            k <= words@.len(),
            w == views(words@),
            views(buf@) == lines_of(wrap_state(max_length as int, w, k as int).0),
            views(line_buf@) == wrap_state(max_length as int, w, k as int).1,
            length == wrap_state(max_length as int, w, k as int).2,
        decreases words@.len() - k,
    {
        let segment = words[k].clone();
        let l = segment.as_str().len();
        assert(segment@ == w[k as int]);
        let ghost before = wrap_state(max_length as int, w, k as int);
        if l < max_length && length < max_length - l {
            length = length + l + 1;
            line_buf.push(segment);
            assert(views(line_buf@) =~= before.1.push(w[k as int]));
        } else {
            let ghost closed = buf@;
            let line = join_with_space(&line_buf);
            buf.push(line);
            proof {
                lemma_views_push(closed, line);
                assert(views(buf@) =~= lines_of(before.0.push(before.1)));
            }
            length = l;
            line_buf = Vec::new();
            line_buf.push(segment);
            assert(views(line_buf@) =~= seq![w[k as int]]);
        }
        k += 1;
    }
    let ghost last = wrap_state(max_length as int, w, k as int);
    let ghost closed = buf@;
    let line = join_with_space(&line_buf);
    buf.push(line);
    proof {
        lemma_views_push(closed, line);
        assert(views(buf@) =~= lines_of(last.0.push(last.1)));
    }
    buf
}

/// Split lines that are over `max_length' long into multiple lines.
/// Breakes only at whitespace.
pub fn split_long_lines(max_length: usize, s: &str) -> (r: Vec<String>)
    ensures
        views(r@) == lines_of(wrapped(max_length as int, whitespace_words(s@))),
{
    let words = split_whitespace(s);
    wrap_words(max_length, &words)
}

} // verus!
