use vstd::prelude::*;

use vstd::std_specs::iter::IteratorSpec;

use crate::sqrt::{floor_sqrt, lemma_floor_sqrt_bounded, Sqrt};

verus! {

broadcast use vstd::array::group_array_axioms;

/// A vector of exactly `N` components; the length is part of the type.
#[derive(Clone, Copy, Debug)]
pub struct Vector<T, const N: usize>(pub [T; N]);

impl<T, const N: usize> View for Vector<T, N> {
    type V = Seq<T>;

    open spec fn view(&self) -> Seq<T> {
        self.0@
    }
}

/// Whether every entry of `s` is an `i64`.
pub open spec fn fits_i64(s: Seq<int>) -> bool {
    forall|i: int| 0 <= i < s.len() ==> i64::MIN <= #[trigger] s[i] <= i64::MAX
}

pub open spec fn add_seq(a: Seq<int>, b: Seq<int>) -> Seq<int> {
    Seq::new(a.len(), |i: int| a[i] + b[i])
}

pub open spec fn sub_seq(a: Seq<int>, b: Seq<int>) -> Seq<int> {
    Seq::new(a.len(), |i: int| a[i] - b[i])
}

pub open spec fn scale_seq(a: Seq<int>, s: int) -> Seq<int> {
    Seq::new(a.len(), |i: int| a[i] * s)
}

pub open spec fn abs(x: int) -> int {
    if x >= 0 {
        x
    } else {
        -x
    }
}

/// Integer division rounded toward zero, as the machine divides.
pub open spec fn trunc_div(x: int, d: int) -> int {
    let q = abs(x) / abs(d);
    if (x >= 0) == (d >= 0) {
        q
    } else {
        -q
    }
}

pub open spec fn div_seq(a: Seq<int>, s: int) -> Seq<int> {
    Seq::new(a.len(), |i: int| trunc_div(a[i], s))
}

pub open spec fn neg_seq(a: Seq<int>) -> Seq<int> {
    Seq::new(a.len(), |i: int| -a[i])
}

/// Sum of the products of the first `a.len()` components.
pub open spec fn dot_seq(a: Seq<int>, b: Seq<int>) -> int
    decreases a.len(),
{
    if a.len() == 0 {
        0
    } else {
        dot_seq(a.drop_last(), b.drop_last()) + a.last() * b[a.len() - 1]
    }
}

/// Whether the running sum of products, and each product, stays within `i64`.
pub open spec fn dot_fits(a: Seq<int>, b: Seq<int>) -> bool {
    forall|k: int|
        0 <= k <= a.len() ==> i64::MIN <= #[trigger] dot_seq(a.take(k), b.take(k)) <= i64::MAX
            && (k < a.len() ==> i64::MIN <= a[k] * b[k] <= i64::MAX)
}

/// `x / d` rounded toward zero.
pub fn div_toward_zero(x: i64, d: i64) -> (r: i64)
    requires
        d != 0,
        i64::MIN <= trunc_div(x as int, d as int) <= i64::MAX,
    ensures
        r == trunc_div(x as int, d as int),
{
    let ax: i128 = if x >= 0 { x as i128 } else { -(x as i128) };
    let ad: i128 = if d >= 0 { d as i128 } else { -(d as i128) };
    let q: i128 = ax / ad;
    if (x >= 0) == (d >= 0) {
        q as i64
    } else {
        (-q) as i64
    }
}

impl<T, const N: usize> Vector<T, N> {
    pub fn size(&self) -> (r: usize)
        ensures
            r == N,
            r == self@.len(),
    {
        N
    }

    pub fn new(array: [T; N]) -> (r: Vector<T, N>)
        ensures
            r@ == array@,
    {
        Vector(array)
    }

    /// An iterator over the components, in order.
    pub fn iter(&self) -> (r: std::slice::Iter<'_, T>)
        ensures
            r.remaining() == self@.as_ref(),
    {
        (&self.0).into_iter()
    }

    /// The component at `index`.
    pub fn get(&self, index: usize) -> (r: &T)
        requires
            index < N,
        ensures
            *r == self@[index as int],
    {
        &self.0[index]
    }
}

impl<const N: usize> Vector<i64, N> {
    /// The components as mathematical integers.
    pub open spec fn model(&self) -> Seq<int> {
        self@.map_values(|x: i64| x as int)
    }

    pub fn add(self, rhs: Self) -> (r: Self)
        requires
            fits_i64(add_seq(self.model(), rhs.model())),
        ensures
            r.model() == add_seq(self.model(), rhs.model()),
    {
        let mut a = self.0;
        let mut i: usize = 0;
        while i < N
            invariant
                i <= N,
                fits_i64(add_seq(self.model(), rhs.model())),
                forall|j: int| 0 <= j < i ==> a@[j] == self@[j] + rhs@[j],
            decreases N - i,
        {
            assert(add_seq(self.model(), rhs.model())[i as int] == self@[i as int]
                + rhs@[i as int]);
            a[i] = self.0[i] + rhs.0[i];
            i = i + 1;
        }
        let r = Vector(a);
        assert(r.model() =~= add_seq(self.model(), rhs.model()));
        r
    }

    pub fn sub(self, rhs: Self) -> (r: Self)
        requires
            fits_i64(sub_seq(self.model(), rhs.model())),
        ensures
            r.model() == sub_seq(self.model(), rhs.model()),
    {
        let mut a = self.0;
        let mut i: usize = 0;
        while i < N
            invariant
                i <= N,
                fits_i64(sub_seq(self.model(), rhs.model())),
                forall|j: int| 0 <= j < i ==> a@[j] == self@[j] - rhs@[j],
            decreases N - i,
        {
            assert(sub_seq(self.model(), rhs.model())[i as int] == self@[i as int]
                - rhs@[i as int]);
            a[i] = self.0[i] - rhs.0[i];
            i = i + 1;
        }
        let r = Vector(a);
        assert(r.model() =~= sub_seq(self.model(), rhs.model()));
        r
    }

    /// Each component multiplied by `s`.
    pub fn scale(self, s: i64) -> (r: Self)
        requires
            fits_i64(scale_seq(self.model(), s as int)),
        ensures
            r.model() == scale_seq(self.model(), s as int),
    {
        let mut a = self.0;
        let mut i: usize = 0;
        while i < N
            invariant
                i <= N,
                fits_i64(scale_seq(self.model(), s as int)),
                forall|j: int| 0 <= j < i ==> a@[j] == self@[j] * s,
            decreases N - i,
        {
            assert(scale_seq(self.model(), s as int)[i as int] == self@[i as int] * s);
            a[i] = self.0[i] * s;
            i = i + 1;
        }
        let r = Vector(a);
        assert(r.model() =~= scale_seq(self.model(), s as int));
        r
    }

    /// Each component divided by `s`, rounded toward zero.
    pub fn divide(self, s: i64) -> (r: Self)
        requires
            s != 0,
            fits_i64(div_seq(self.model(), s as int)),
        ensures
            r.model() == div_seq(self.model(), s as int),
    {
        let mut a = self.0;
        let mut i: usize = 0;
        while i < N
            invariant
                i <= N,
                s != 0,
                fits_i64(div_seq(self.model(), s as int)),
                forall|j: int| 0 <= j < i ==> a@[j] == trunc_div(self@[j] as int, s as int),
            decreases N - i,
        {
            assert(div_seq(self.model(), s as int)[i as int] == trunc_div(
                self@[i as int] as int,
                s as int,
            ));
            a[i] = div_toward_zero(self.0[i], s);
            i = i + 1;
        }
        let r = Vector(a);
        assert(r.model() =~= div_seq(self.model(), s as int));
        r
    }

    pub fn neg(self) -> (r: Self)
        requires
            fits_i64(neg_seq(self.model())),
        ensures
            r.model() == neg_seq(self.model()),
    {
        let mut a = self.0;
        let mut i: usize = 0;
        while i < N
            invariant
                i <= N,
                fits_i64(neg_seq(self.model())),
                forall|j: int| 0 <= j < i ==> a@[j] == -self@[j],
            decreases N - i,
        {
            assert(neg_seq(self.model())[i as int] == -self@[i as int]);
            a[i] = -self.0[i];
            i = i + 1;
        }
        let r = Vector(a);
        assert(r.model() =~= neg_seq(self.model()));
        r
    }

    /// Sum of the products of matching components.
    pub fn dot(self, rhs: Self) -> (r: i64)
        requires
            dot_fits(self.model(), rhs.model()),
        ensures
            r == dot_seq(self.model(), rhs.model()),
    {
        let ghost a = self.model();
        let ghost b = rhs.model();
        let mut acc: i64 = 0;
        let mut i: usize = 0;
        assert(a.take(0).len() == 0);
        while i < N
            invariant
                i <= N,
                a.len() == N,
                b.len() == N,
                a == self.model(),
                b == rhs.model(),
                dot_fits(a, b),
                acc == dot_seq(a.take(i as int), b.take(i as int)),
            decreases N - i,
        {
            proof {
                assert(a.take(i + 1).drop_last() =~= a.take(i as int));
                assert(b.take(i + 1).drop_last() =~= b.take(i as int));
                assert(i64::MIN <= dot_seq(a.take(i + 1), b.take(i + 1)) <= i64::MAX);
                assert(i64::MIN <= a[i as int] * b[i as int] <= i64::MAX);
            }
            acc = acc + self.0[i] * rhs.0[i];
            i = i + 1;
        }
        assert(a.take(N as int) =~= a);
        assert(b.take(N as int) =~= b);
        acc
    }

    /// The vector's dot product with itself.
    pub fn square_length(self) -> (r: i64)
        requires
            dot_fits(self.model(), self.model()),
        ensures
            r == dot_seq(self.model(), self.model()),
    {
        self.dot(self)
    }

    /// Square root of the squared length, rounded down.
    pub fn length(self) -> (r: i64)
        requires
            dot_fits(self.model(), self.model()),
        ensures
            r == floor_sqrt(dot_seq(self.model(), self.model()) as nat),
    {
        proof {
            lemma_dot_self_nonneg(self.model());
            lemma_floor_sqrt_bounded(dot_seq(self.model(), self.model()) as nat);
        }
        let sq = self.square_length();
        let r = sq.sqrt();
        r
    }

    /// Each component divided by the length, rounded toward zero.
    pub fn normalized(self) -> (r: Self)
        requires
            dot_fits(self.model(), self.model()),
            floor_sqrt(dot_seq(self.model(), self.model()) as nat) != 0,
        ensures
            r.model() == div_seq(
                self.model(),
                floor_sqrt(dot_seq(self.model(), self.model()) as nat) as int,
            ),
    {
        let len = self.length();
        proof {
            let m = self.model();
            let d = div_seq(m, len as int);
            assert forall|i: int| 0 <= i < d.len() implies i64::MIN <= #[trigger] d[i]
                <= i64::MAX by {
                lemma_trunc_div_shrinks(m[i], len as int);
            }
        }
        self.divide(len)
    }
}

/// Dividing by a non-zero integer never moves a value away from zero.
pub proof fn lemma_trunc_div_shrinks(x: int, d: int)
    requires
        d != 0,
    ensures
        abs(trunc_div(x, d)) <= abs(x),
{
    let q = abs(x) / abs(d);
    assert(q <= abs(x)) by (nonlinear_arith)
        requires
            q == abs(x) / abs(d),
            abs(x) >= 0,
            abs(d) >= 1,
    ;
}

/// A dot product of a vector with itself is never negative.
pub proof fn lemma_dot_self_nonneg(a: Seq<int>)
    ensures
        dot_seq(a, a) >= 0,
    decreases a.len(),
{
    if a.len() > 0 {
        lemma_dot_self_nonneg(a.drop_last());
        assert(a.last() * a.last() >= 0) by (nonlinear_arith);
    }
}

/// Adding `b` and then subtracting it again gives back the original vector.
pub proof fn lemma_add_sub_round_trip(a: Seq<int>, b: Seq<int>)
    requires
        a.len() == b.len(),
    ensures
        sub_seq(add_seq(a, b), b) == a,
{
    assert(sub_seq(add_seq(a, b), b) =~= a);
}

/// The dot product distributes over addition in its first argument.
pub proof fn lemma_dot_add_left(a: Seq<int>, b: Seq<int>, c: Seq<int>)
    requires
        a.len() == b.len(),
        b.len() == c.len(),
    ensures
        dot_seq(add_seq(a, b), c) == dot_seq(a, c) + dot_seq(b, c),
    decreases a.len(),
{
    if a.len() > 0 {
        lemma_dot_add_left(a.drop_last(), b.drop_last(), c.drop_last());
        assert(add_seq(a, b).drop_last() =~= add_seq(a.drop_last(), b.drop_last()));
        let n = a.len() - 1;
        assert((a[n] + b[n]) * c[n] == a[n] * c[n] + b[n] * c[n]) by (nonlinear_arith);
    }
}

/// Scaling by a non-zero `s` and then dividing by `s` gives back the original vector.
pub proof fn lemma_divide_scale(v: Seq<int>, s: int)
    requires
        s != 0,
    ensures
        div_seq(scale_seq(v, s), s) == v,
{
    assert forall|i: int| 0 <= i < v.len() implies #[trigger] trunc_div(v[i] * s, s) == v[i] by {
        let x = v[i];
        assert(abs(x * s) == abs(x) * abs(s)) by (nonlinear_arith);
        assert((abs(x) * abs(s)) / abs(s) == abs(x)) by (nonlinear_arith)
            requires
                abs(s) > 0,
        ;
        if x > 0 {
            assert((x * s >= 0) == (s >= 0)) by (nonlinear_arith)
                requires
                    s != 0,
                    x > 0,
            ;
        } else if x < 0 {
            assert((x * s >= 0) == (s < 0)) by (nonlinear_arith)
                requires
                    s != 0,
                    x < 0,
            ;
        }
    }
    assert(div_seq(scale_seq(v, s), s) =~= v);
}

} // verus!
