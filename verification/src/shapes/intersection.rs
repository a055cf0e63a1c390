//! Where a ray meets the objects of a scene.
use crate::primitives::approx_eq::ApproxEq;
use crate::primitives::scalar::obeys_order;
use crate::primitives::tmatrix::prelude::{spec_zero, zero};
use std::ops::Index;
use vstd::prelude::*;
use vstd::std_specs::cmp::PartialOrdIs;
use vstd::std_specs::convert::FromSpec;

verus! {

/// A point on a ray, given by the ray's parameter `t`, at which it meets the
/// object with the index `object` among the objects of the scene.
#[derive(Clone, Copy, Debug, PartialEq)]
pub struct Intersection<T> {
    pub t: T,
    pub object: usize,
}

impl<T: Copy> Intersection<T> {
    pub fn new(t: T, object: usize) -> (r: Self)
        ensures
            r.t == t,
            r.object == object,
    {
        Intersection { t, object }
    }
}

impl<T: ApproxEq + Copy> ApproxEq for Intersection<T> {
    open spec fn obeys_approx_eq() -> bool {
        T::obeys_approx_eq()
    }

    open spec fn approx_eq_req(self, other: Intersection<T>) -> bool {
        self.t.approx_eq_req(other.t)
    }

    /// The parameters are equal up to the allowed error, and the objects
    /// are the same.
    open spec fn approx_eq_spec(self, other: Intersection<T>) -> bool {
        self.t.approx_eq_spec(other.t) && self.object == other.object
    }

    fn approx_eq(self, other: Intersection<T>) -> (r: bool) {
        self.t.approx_eq(other.t) && self.object == other.object
    }
}

impl<'a, T: ApproxEq + Copy> ApproxEq for &'a Intersection<T> {
    open spec fn obeys_approx_eq() -> bool {
        T::obeys_approx_eq()
    }

    open spec fn approx_eq_req(self, other: &'a Intersection<T>) -> bool {
        self.t.approx_eq_req(other.t)
    }

    open spec fn approx_eq_spec(self, other: &'a Intersection<T>) -> bool {
        self.t.approx_eq_spec(other.t) && self.object == other.object
    }

    fn approx_eq(self, other: &'a Intersection<T>) -> (r: bool) {
        self.t.approx_eq(other.t) && self.object == other.object
    }
}

impl<'a, T: ApproxEq + Copy> ApproxEq for &'a Intersections<T> {
    open spec fn obeys_approx_eq() -> bool {
        T::obeys_approx_eq()
    }

    open spec fn approx_eq_req(self, other: &'a Intersections<T>) -> bool {
        forall|k: int|
            0 <= k < self.is@.len() && k < other.is@.len() ==> (#[trigger] self.is@[k]).approx_eq_req(
                other.is@[k],
            )
    }

    /// The intersections agree one by one, as far as both lists reach.
    open spec fn approx_eq_spec(self, other: &'a Intersections<T>) -> bool {
        forall|k: int|
            0 <= k < self.is@.len() && k < other.is@.len() ==> (
            #[trigger] self.is@[k]).approx_eq_spec(other.is@[k])
    }

    fn approx_eq(self, other: &'a Intersections<T>) -> (r: bool) {
        let mut k: usize = 0;
        while k < self.is.len() && k < other.is.len()
            invariant
                self.approx_eq_req(other),
                T::obeys_approx_eq() ==> forall|x: int|
                    0 <= x < k ==> (#[trigger] self.is@[x]).approx_eq_spec(other.is@[x]),
            decreases self.is@.len() - k,
        {
            if !self.is[k].approx_eq(other.is[k]) {
                return false;
            }
            k += 1;
        }
        true
    }
}

/// The intersections of one ray, in the order of their parameters.
#[derive(Clone, Debug)]
pub struct Intersections<T> {
    /// Intersections
    pub is: Vec<Intersection<T>>,
}

/// No later entry lies below an earlier one.
pub open spec fn ascending<T: PartialOrd>(s: Seq<Intersection<T>>) -> bool {
    forall|i: int, j: int| 0 <= i < j < s.len() ==> !(#[trigger] s[j]).t.is_lt(&(#[trigger] s[i]).t)
}

/// Among the parameters of `s`, none is below itself, and what is below
/// something that is below a third is below the third.
pub open spec fn strict_order_on<T: PartialOrd>(s: Seq<Intersection<T>>) -> bool {
    &&& forall|a: int| 0 <= a < s.len() ==> !(#[trigger] s[a]).t.is_lt(&s[a].t)
    &&& forall|a: int, b: int, c: int|
        #![trigger s[a], s[b], s[c]]
        0 <= a < s.len() && 0 <= b < s.len() && 0 <= c < s.len() && s[a].t.is_lt(&s[b].t)
            && s[b].t.is_lt(&s[c].t) ==> s[a].t.is_lt(&s[c].t)
}

/// The index of the first intersection among the first `k` whose parameter
/// is not negative.
pub open spec fn first_hit<T: PartialOrd + From<i8>>(s: Seq<Intersection<T>>, k: int) -> Option<
    int,
>
    decreases k,
{
    if k <= 0 {
        None
    } else {
        match first_hit(s, k - 1) {
            Some(i) => Some(i),
            None => if s[k - 1].t.is_ge(&spec_zero::<T>()) {
                Some(k - 1)
            } else {
                None
            },
        }
    }
}

/// What [`first_hit`] finds is not negative and nothing before it is;
/// it finds nothing only where every parameter is negative.
pub proof fn lemma_first_hit<T: PartialOrd + From<i8>>(s: Seq<Intersection<T>>, k: int)
    requires
        0 <= k <= s.len(),
    ensures
        first_hit(s, k) matches Some(i) ==> 0 <= i < k && s[i].t.is_ge(&spec_zero::<T>())
            && forall|j: int| 0 <= j < i ==> !(#[trigger] s[j]).t.is_ge(&spec_zero::<T>()),
        first_hit(s, k) is None ==> forall|j: int|
            0 <= j < k ==> !(#[trigger] s[j]).t.is_ge(&spec_zero::<T>()),
    decreases k,
{
    if k > 0 {
        lemma_first_hit(s, k - 1);
    }
}

/// In an ascending list no parameter that is not negative lies below the
/// one that [`first_hit`] finds: the hit is the nearest.
pub proof fn lemma_hit_is_lowest<T: PartialOrd + From<i8>>(s: Seq<Intersection<T>>, j: int)
    requires
        ascending(s),
        0 <= j < s.len(),
        s[j].t.is_ge(&spec_zero::<T>()),
    ensures
        first_hit(s, s.len() as int) matches Some(i) && i <= j && (i < j ==> !s[j].t.is_lt(
            &s[i].t,
        )),
{
    lemma_first_hit(s, s.len() as int);
    let i = first_hit(s, s.len() as int)->0;
    if i < j {
        assert(!s[j].t.is_lt(&s[i].t));
    }
}

/// A list with one more entry put in holds what it held, and that entry.
pub proof fn lemma_insert_multiset<A>(s: Seq<A>, i: int, a: A)
    requires
        0 <= i <= s.len(),
    ensures
        s.insert(i, a).to_multiset() == s.to_multiset().insert(a),
{
    broadcast use vstd::seq_lib::group_to_multiset_ensures;

    let t = s.insert(i, a);
    assert(t.remove(i) =~= s);
    assert(t[i] == a);
    assert(t.to_multiset().remove(a) =~= s.to_multiset());
    assert(t.to_multiset().count(a) > 0) by {
        assert(t.contains(a));
    }
    assert(t.to_multiset() =~= s.to_multiset().insert(a));
}

/// Sort intersections by their parameters, lowest first; of two with
/// parameters of which neither is below the other, the one that came first
/// stays first.
pub fn sort_by_t<T: Copy + PartialOrd>(is: &Vec<Intersection<T>>) -> (r: Vec<Intersection<T>>)
    ensures
        r@.to_multiset() == is@.to_multiset(),
        r@.len() == is@.len(),
        obeys_order::<T>() && strict_order_on(is@) ==> ascending(r@),
{
    let mut out: Vec<Intersection<T>> = Vec::with_capacity(is.len());
    let mut k: usize = 0;
    proof {
        broadcast use vstd::seq_lib::group_to_multiset_ensures;

        assert(is@.subrange(0, 0) =~= Seq::<Intersection<T>>::empty());
    }
    while k < is.len()
        invariant
            k <= is@.len(),
            out@.len() == k,
            out@.to_multiset() == is@.subrange(0, k as int).to_multiset(),
            obeys_order::<T>() && strict_order_on(is@) ==> ascending(out@),
        decreases is@.len() - k,
    {
        let x = is[k];
        let mut pos: usize = 0;
        while pos < out.len() && !(x.t < out[pos].t)
            invariant
                pos <= out@.len(),
                obeys_order::<T>() ==> forall|i: int|
                    0 <= i < pos ==> !x.t.is_lt(&(#[trigger] out@[i]).t),
            decreases out@.len() - pos,
        {
            pos += 1;
        }
        let ghost before = out@;
        proof {
            if obeys_order::<T>() && pos < before.len() {
                assert(x.t.is_lt(&before[pos as int].t));
            }
        }
        out.insert(pos, x);
        proof {
            broadcast use vstd::seq_lib::group_to_multiset_ensures;

            lemma_insert_multiset(before, pos as int, x);
            assert(is@.subrange(0, k + 1) =~= is@.subrange(0, k as int).push(x));
            if obeys_order::<T>() && strict_order_on(is@) {
                assert forall|i: int, j: int| 0 <= i < j < out@.len() implies !(
                #[trigger] out@[j]).t.is_lt(&(#[trigger] out@[i]).t) by {
                    if i == pos {
                        let e = before[j - 1];
                        assert(out@[j] == e);
                        assert(out@[i] == x);
                        lemma_member(is@, before, k as int, j - 1);
                        lemma_member(is@, before, k as int, pos as int);
                        let a = choose|a: int| 0 <= a < k && is@[a] == e;
                        let c = choose|c: int| 0 <= c < k && is@[c] == before[pos as int];
                        assert(is@[k as int] == x);
                        assert(is@[k as int].t.is_lt(&is@[c].t));
                        if e.t.is_lt(&x.t) {
                            assert(is@[a].t.is_lt(&is@[k as int].t));
                            assert(is@[a].t.is_lt(&is@[c].t));
                            if j - 1 > pos {
                                assert(!before[j - 1].t.is_lt(&before[pos as int].t));
                            } else {
                                assert(is@[k as int].t.is_lt(&is@[a].t));
                                assert(is@[k as int].t.is_lt(&is@[k as int].t));
                            }
                        }
                    } else if j == pos {
                        assert(out@[i] == before[i]);
                        assert(!x.t.is_lt(&before[i].t));
                    } else {
                        let bi = if i < pos {
                            i
                        } else {
                            i - 1
                        };
                        let bj = if j < pos {
                            j
                        } else {
                            j - 1
                        };
                        assert(out@[i] == before[bi]);
                        assert(out@[j] == before[bj]);
                        assert(!before[bj].t.is_lt(&before[bi].t));
                    }
                }
            }
        }
        k += 1;
    }
    assert(is@.subrange(0, k as int) =~= is@);
    out
}

/// An entry of a list that holds what the first `k` entries of another hold
/// is one of those.
pub proof fn lemma_member<A>(s: Seq<A>, t: Seq<A>, k: int, i: int)
    requires
        0 <= k <= s.len(),
        t.to_multiset() == s.subrange(0, k).to_multiset(),
        0 <= i < t.len(),
    ensures
        exists|a: int| 0 <= a < k && s[a] == t[i],
{
    broadcast use vstd::seq_lib::group_to_multiset_ensures;

    assert(t.contains(t[i]));
    assert(t.to_multiset().count(t[i]) > 0);
    let u = s.subrange(0, k);
    assert(u.contains(t[i]));
    let a = choose|a: int| 0 <= a < u.len() && u[a] == t[i];
    assert(s[a] == t[i]);
}

/// What a list of intersections holds, if there is one.
pub open spec fn views<T>(r: Option<Intersections<T>>) -> Option<Seq<Intersection<T>>> {
    match r {
        Some(xs) => Some(xs.is@),
        None => None,
    }
}

/// The two intersections of one object, the lower parameter first.
pub open spec fn ordered_pair<T: PartialOrd>(t1: T, t2: T, object: usize) -> Seq<Intersection<T>> {
    if t2.is_lt(&t1) {
        seq![Intersection { t: t2, object }, Intersection { t: t1, object }]
    } else {
        seq![Intersection { t: t1, object }, Intersection { t: t2, object }]
    }
}

impl<T: Copy + PartialOrd + From<i8>> Intersections<T> {
    /// No intersection at all.
    pub fn empty() -> (r: Self)
        ensures
            r.is@ == Seq::<Intersection<T>>::empty(),
    {
        Intersections { is: Vec::new() }
    }

    /// The one intersection of an object.
    pub fn single(t: T, object: usize) -> (r: Self)
        ensures
            r.is@ == seq![Intersection { t, object }],
    {
        Intersections { is: vec![Intersection { t, object }] }
    }

    /// The two intersections of an object, the lower parameter first.
    pub fn pair(t1: T, t2: T, object: usize) -> (r: Self)
        ensures
            r.is@.len() == 2,
            r.is@[0].object == object,
            r.is@[1].object == object,
            (r.is@[0].t == t1 && r.is@[1].t == t2) || (r.is@[0].t == t2 && r.is@[1].t == t1),
            obeys_order::<T>() ==> r.is@ == ordered_pair(t1, t2, object),
    {
        if t2 < t1 {
            Intersections { is: vec![Intersection { t: t2, object }, Intersection { t: t1, object }] }
        } else {
            Intersections { is: vec![Intersection { t: t1, object }, Intersection { t: t2, object }] }
        }
    }

    /// The intersections in the order of their parameters.
    pub fn new(is: Vec<Intersection<T>>) -> (r: Self)
        ensures
            r.is@.to_multiset() == is@.to_multiset(),
            r.is@.len() == is@.len(),
            obeys_order::<T>() && strict_order_on(is@) ==> ascending(r.is@),
    {
        Intersections { is: sort_by_t(&is) }
    }

    pub fn len(&self) -> (r: usize)
        ensures
            r == self.is@.len(),
    {
        self.is.len()
    }

    /// The index of the hit: of the first intersection whose parameter is
    /// not negative.
    pub fn hit_index(&self) -> (r: Option<usize>)
        ensures
            obeys_order::<T>() && T::obeys_from_spec() ==> match r {
                Some(i) => first_hit(self.is@, self.is@.len() as int) == Some(i as int),
                None => first_hit(self.is@, self.is@.len() as int) is None,
            },
            r matches Some(i) ==> i < self.is@.len(),
    {
        let z: T = zero();
        let mut k: usize = 0;
        while k < self.is.len()
            invariant
                k <= self.is@.len(),
                T::obeys_from_spec() ==> z == spec_zero::<T>(),
                obeys_order::<T>() && T::obeys_from_spec() ==> first_hit(self.is@, k as int)
                    is None,
            decreases self.is@.len() - k,
        {
            if self.is[k].t >= z {
                proof {
                    if obeys_order::<T>() && T::obeys_from_spec() {
                        lemma_first_hit_stays(self.is@, k + 1, self.is@.len() as int);
                    }
                }
                return Some(k);
            }
            k += 1;
        }
        None
    }

    /// The hit: the intersection with the lowest parameter that is not
    /// negative, if there is one.
    pub fn hit(&self) -> (r: Option<&Intersection<T>>)
        ensures
            obeys_order::<T>() && T::obeys_from_spec() ==> match r {
                Some(h) => first_hit(self.is@, self.is@.len() as int) matches Some(i) && *h
                    == self.is@[i],
                None => first_hit(self.is@, self.is@.len() as int) is None,
            },
            r matches Some(h) ==> self.is@.contains(*h),
    {
        match self.hit_index() {
            Some(i) => Some(&self.is[i]),
            None => None,
        }
    }

    /// The intersections, lowest parameter first.
    pub fn iter(&self) -> (r: std::slice::Iter<'_, Intersection<T>>)
        ensures
            vstd::std_specs::slice::into_iter_elts(r) == self.is@,
    {
        let r = self.is.iter();
        proof {
            broadcast use vstd::std_specs::slice::axiom_spec_slice_iter;

            assert(self.is@.as_ref().unref() =~= self.is@);
        }
        r
    }

    /// The intersections, lowest parameter first.
    pub fn into_iter(self) -> (r: Vec<Intersection<T>>)
        ensures
            r@ == self.is@,
    {
        self.is
    }
}

/// What [`first_hit`] has found among the first `k` it finds among more.
pub proof fn lemma_first_hit_stays<T: PartialOrd + From<i8>>(
    s: Seq<Intersection<T>>,
    k: int,
    n: int,
)
    requires
        0 <= k <= n,
        first_hit(s, k) is Some,
    ensures
        first_hit(s, n) == first_hit(s, k),
    decreases n - k,
{
    if k < n {
        lemma_first_hit_stays(s, k, n - 1);
    }
}

impl<T> vstd::std_specs::core::IndexSpecImpl<usize> for Intersections<T> {
    open spec fn index_req(&self, index: &usize) -> bool {
        *index < self.is.len()
    }
}

impl<T> Index<usize> for Intersections<T> {
    type Output = Intersection<T>;

    fn index(&self, i: usize) -> (r: &Self::Output)
        ensures
            *r == self.is@[i as int],
    {
        &self.is[i]
    }
}

} // verus!
