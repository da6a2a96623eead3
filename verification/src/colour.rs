//! RGBA colours over fixed-point scalars.
//!
//! Colours form an additive space with `black()` as additive identity of the
//! colour channels; every operation is stated exactly over the mathematical
//! view `ColourView`.

use vstd::prelude::*;

use crate::fixed::{
    abs_i, fdiv, fdiv_s, fits_i64, fmul, fmul_s, lemma_fmul_abs_within, lemma_fmul_one,
    lemma_qtrunc_rem_bound, qtrunc, ONE, SCALE,
};

verus! {

#[derive(Clone, Copy, Debug, PartialEq, Eq, Structural)]
pub struct Colour {
    pub r: i64,
    pub g: i64,
    pub b: i64,
    pub a: i64,
}

/// Mathematical view of a colour: its four channels as unbounded integers.
pub ghost struct ColourView {
    pub r: int,
    pub g: int,
    pub b: int,
    pub a: int,
}

impl View for Colour {
    type V = ColourView;

    open spec fn view(&self) -> ColourView {
        ColourView { r: self.r as int, g: self.g as int, b: self.b as int, a: self.a as int }
    }
}

/// Channel-wise sum.
pub open spec fn add_v(x: ColourView, y: ColourView) -> ColourView {
    ColourView { r: x.r + y.r, g: x.g + y.g, b: x.b + y.b, a: x.a + y.a }
}

/// Channel-wise difference.
pub open spec fn sub_v(x: ColourView, y: ColourView) -> ColourView {
    ColourView { r: x.r - y.r, g: x.g - y.g, b: x.b - y.b, a: x.a - y.a }
}

/// Channel-wise fixed-point product.
pub open spec fn mul_v(x: ColourView, y: ColourView) -> ColourView {
    ColourView {
        r: fmul_s(x.r, y.r),
        g: fmul_s(x.g, y.g),
        b: fmul_s(x.b, y.b),
        a: fmul_s(x.a, y.a),
    }
}

/// Fixed-point product of every channel with one scalar.
pub open spec fn scale_v(x: ColourView, s: int) -> ColourView {
    ColourView { r: fmul_s(x.r, s), g: fmul_s(x.g, s), b: fmul_s(x.b, s), a: fmul_s(x.a, s) }
}

/// Fixed-point quotient of every channel by one scalar.
pub open spec fn div_v(x: ColourView, s: int) -> ColourView {
    ColourView { r: fdiv_s(x.r, s), g: fdiv_s(x.g, s), b: fdiv_s(x.b, s), a: fdiv_s(x.a, s) }
}

/// Truncated remainder of two scalars, as the machine computes it.
pub open spec fn rem_s(a: int, b: int) -> int {
    a - qtrunc(a, b) * b
}

/// Truncated remainder of every channel by one scalar.
pub open spec fn rem_v(x: ColourView, s: int) -> ColourView {
    ColourView { r: rem_s(x.r, s), g: rem_s(x.g, s), b: rem_s(x.b, s), a: rem_s(x.a, s) }
}

/// Linear interpolation: `x + (y - x) * t`, with `t` a fixed-point scalar.
pub open spec fn lerp_v(x: ColourView, y: ColourView, t: int) -> ColourView {
    add_v(x, scale_v(sub_v(y, x), t))
}

/// The opaque black colour: zero light on every colour channel.
pub open spec fn black_s() -> Colour {
    Colour { r: 0, g: 0, b: 0, a: ONE }
}

/// The opaque white colour.
pub open spec fn white_s() -> Colour {
    Colour { r: ONE, g: ONE, b: ONE, a: ONE }
}

/// Whether every channel lies within `bound`, in magnitude.
pub open spec fn channels_within(x: ColourView, bound: int) -> bool {
    &&& abs_i(x.r) <= bound
    &&& abs_i(x.g) <= bound
    &&& abs_i(x.b) <= bound
    &&& abs_i(x.a) <= bound
}

/// Whether every channel lies in `[0, bound]`.
pub open spec fn channels_in_range(x: ColourView, bound: int) -> bool {
    &&& 0 <= x.r <= bound
    &&& 0 <= x.g <= bound
    &&& 0 <= x.b <= bound
    &&& 0 <= x.a <= bound
}

pub fn black() -> (c: Colour)
    ensures
        c == black_s(),
{
    Colour { r: 0, g: 0, b: 0, a: ONE }
}

pub fn white() -> (c: Colour)
    ensures
        c == white_s(),
{
    Colour { r: ONE, g: ONE, b: ONE, a: ONE }
}

pub fn light_grey() -> (c: Colour)
    ensures
        c@ == (ColourView { r: 49152, g: 49152, b: 49152, a: 65536 }),
{
    Colour { r: 49152, g: 49152, b: 49152, a: ONE }
}

pub fn light_blue() -> (c: Colour)
    ensures
        c@ == (ColourView { r: 32768, g: 45875, b: 65536, a: 65536 }),
{
    Colour { r: 32768, g: 45875, b: ONE, a: ONE }
}

impl Colour {
    /// Channel-wise addition.
    pub fn add(self, other: Colour) -> (c: Colour)
        requires
            fits_i64(self@.r + other@.r),
            fits_i64(self@.g + other@.g),
            fits_i64(self@.b + other@.b),
            fits_i64(self@.a + other@.a),
        ensures
            c@ == add_v(self@, other@),
    {
        Colour {
            r: self.r + other.r,
            g: self.g + other.g,
            b: self.b + other.b,
            a: self.a + other.a,
        }
    }

    /// Channel-wise subtraction.
    pub fn sub(self, other: Colour) -> (c: Colour)
        requires
            fits_i64(self@.r - other@.r),
            fits_i64(self@.g - other@.g),
            fits_i64(self@.b - other@.b),
            fits_i64(self@.a - other@.a),
        ensures
            c@ == sub_v(self@, other@),
    {
        Colour {
            r: self.r - other.r,
            g: self.g - other.g,
            b: self.b - other.b,
            a: self.a - other.a,
        }
    }

    /// Channel-wise fixed-point multiplication.
    pub fn mul(self, other: Colour) -> (c: Colour)
        requires
            fits_i64(fmul_s(self@.r, other@.r)),
            fits_i64(fmul_s(self@.g, other@.g)),
            fits_i64(fmul_s(self@.b, other@.b)),
            fits_i64(fmul_s(self@.a, other@.a)),
        ensures
            c@ == mul_v(self@, other@),
    {
        Colour {
            r: fmul(self.r, other.r),
            g: fmul(self.g, other.g),
            b: fmul(self.b, other.b),
            a: fmul(self.a, other.a),
        }
    }

    /// Fixed-point multiplication of every channel by one scalar.
    pub fn mul_scalar(self, s: i64) -> (c: Colour)
        requires
            fits_i64(fmul_s(self@.r, s as int)),
            fits_i64(fmul_s(self@.g, s as int)),
            fits_i64(fmul_s(self@.b, s as int)),
            fits_i64(fmul_s(self@.a, s as int)),
        ensures
            c@ == scale_v(self@, s as int),
    {
        Colour {
            r: fmul(self.r, s),
            g: fmul(self.g, s),
            b: fmul(self.b, s),
            a: fmul(self.a, s),
        }
    }

    /// Fixed-point division of every channel by one scalar.
    pub fn div_scalar(self, s: i64) -> (c: Colour)
        requires
            s != 0,
            fits_i64(fdiv_s(self@.r, s as int)),
            fits_i64(fdiv_s(self@.g, s as int)),
            fits_i64(fdiv_s(self@.b, s as int)),
            fits_i64(fdiv_s(self@.a, s as int)),
        ensures
            c@ == div_v(self@, s as int),
    {
        Colour {
            r: fdiv(self.r, s),
            g: fdiv(self.g, s),
            b: fdiv(self.b, s),
            a: fdiv(self.a, s),
        }
    }

    /// Truncated remainder of every channel by one scalar.
    pub fn rem_scalar(self, s: i64) -> (c: Colour)
        requires
            s != 0,
            s != i64::MIN,
        ensures
            c@ == rem_v(self@, s as int),
    {
        Colour {
            r: rem_i64(self.r, s),
            g: rem_i64(self.g, s),
            b: rem_i64(self.b, s),
            a: rem_i64(self.a, s),
        }
    }

    /// Linear interpolation from `self` (at `amount == 0`) to `other`
    /// (at `amount == ONE`).
    pub fn lerp(self, other: Colour, amount: i64) -> (c: Colour)
        requires
            channels_within(self@, 0x1000_0000_0000_0000),
            channels_within(other@, 0x1000_0000_0000_0000),
            abs_i(amount as int) <= SCALE,
        ensures
            c@ == lerp_v(self@, other@, amount as int),
    {
        proof {
            lemma_fmul_abs_within(
                (other@.r - self@.r) as int,
                amount as int,
                0x2000_0000_0000_0000,
                SCALE as int,
            );
            lemma_fmul_abs_within(
                (other@.g - self@.g) as int,
                amount as int,
                0x2000_0000_0000_0000,
                SCALE as int,
            );
            lemma_fmul_abs_within(
                (other@.b - self@.b) as int,
                amount as int,
                0x2000_0000_0000_0000,
                SCALE as int,
            );
            lemma_fmul_abs_within(
                (other@.a - self@.a) as int,
                amount as int,
                0x2000_0000_0000_0000,
                SCALE as int,
            );
        }
        self.add(other.sub(self).mul_scalar(amount))
    }

    /// The additive fold of a sequence of colours, starting from `black()`;
    /// light accumulation over samples uses this fold.
    pub fn sum(colours: &Vec<Colour>) -> (c: Colour)
        requires
            forall|i: int|
                0 <= i < colours@.len() ==> channels_within(#[trigger] colours@[i]@, 0x8000_0000),
            colours@.len() <= 0x8000_0000,
        ensures
            c@ == sum_v(colours@),
    {
        let mut acc: Colour = black();
        let mut i: usize = 0;
        proof {
            assert(colours@.take(0) =~= Seq::<Colour>::empty());
        }
        while i < colours.len()
            invariant
                0 <= i <= colours@.len(),
                colours@.len() <= 0x8000_0000,
                forall|k: int|
                    0 <= k < colours@.len() ==> channels_within(
                        #[trigger] colours@[k]@,
                        0x8000_0000,
                    ),
                acc@ == sum_v(colours@.take(i as int)),
                channels_within(acc@, ONE + i * 0x8000_0000),
            decreases colours@.len() - i,
        {
            proof {
                assert(colours@.take(i as int + 1).drop_last() =~= colours@.take(i as int));
                assert(colours@.take(i as int + 1).last() == colours@[i as int]);
            }
            acc = acc.add(colours[i]);
            i = i + 1;
        }
        proof {
            assert(colours@.take(colours@.len() as int) =~= colours@);
        }
        acc
    }

    /// The additive identity used by the accumulation fold.
    pub fn zero() -> (c: Colour)
        ensures
            c == black_s(),
    {
        black()
    }

    /// Whether all four channels, the alpha channel included, are zero.
    /// Note that `black()` is not `is_zero`: its alpha channel is `ONE`.
    pub fn is_zero(&self) -> (r: bool)
        ensures
            r == (self@.r == 0 && self@.g == 0 && self@.b == 0 && self@.a == 0),
    {
        self.r == 0 && self.g == 0 && self.b == 0 && self.a == 0
    }

    /// Resets the colour to `black()`.
    pub fn set_zero(&mut self)
        ensures
            *final(self) == black_s(),
    {
        self.r = 0;
        self.g = 0;
        self.b = 0;
        self.a = ONE;
    }
}

/// The additive fold of a sequence of colours, starting from `black()`.
pub open spec fn sum_v(s: Seq<Colour>) -> ColourView
    decreases s.len(),
{
    if s.len() == 0 {
        black_s()@
    } else {
        add_v(sum_v(s.drop_last()), s.last()@)
    }
}

/// Truncated remainder of two `i64` scalars.
pub fn rem_i64(a: i64, b: i64) -> (r: i64)
    requires
        b != 0,
        b != i64::MIN,
    ensures
        r as int == rem_s(a as int, b as int),
{
    let q128: i128 = crate::fixed::tdiv128(a as i128, b as i128);
    proof {
        lemma_qtrunc_rem_bound(a as int, b as int);
        assert(abs_i(q128 as int) <= abs_i(a as int)) by (nonlinear_arith)
            requires
                b != 0,
                q128 as int == qtrunc(a as int, b as int),
        ;
        assert(abs_i(q128 as int * (b as int)) == abs_i(q128 as int) * abs_i(b as int)
            && abs_i(q128 as int) * abs_i(b as int) <= 0x8000_0000_0000_0000
            * 0x8000_0000_0000_0000) by (nonlinear_arith)
            requires
                abs_i(q128 as int) <= 0x8000_0000_0000_0000,
                abs_i(b as int) <= 0x8000_0000_0000_0000,
        ;
    }
    let r128: i128 = (a as i128) - q128 * (b as i128);
    r128 as i64
}

/// Interpolating with `amount == 0` returns the first colour exactly.
pub proof fn lemma_lerp_zero(x: ColourView, y: ColourView)
    ensures
        lerp_v(x, y, 0) == x,
{
    assert(fmul_s(y.r - x.r, 0) == 0);
    assert(fmul_s(y.g - x.g, 0) == 0);
    assert(fmul_s(y.b - x.b, 0) == 0);
    assert(fmul_s(y.a - x.a, 0) == 0);
}

/// Interpolating with `amount == ONE` returns the second colour exactly.
pub proof fn lemma_lerp_one(x: ColourView, y: ColourView)
    ensures
        lerp_v(x, y, ONE as int) == y,
{
    lemma_fmul_one(y.r - x.r);
    lemma_fmul_one(y.g - x.g);
    lemma_fmul_one(y.b - x.b);
    lemma_fmul_one(y.a - x.a);
}

/// A scalar interpolation with a parameter in `[0, ONE]` stays between its
/// endpoints.
pub proof fn lemma_lerp_scalar_range(a: int, b: int, t: int)
    requires
        0 <= t <= ONE,
    ensures
        b >= a ==> a <= a + fmul_s(b - a, t) <= b,
        b < a ==> b <= a + fmul_s(b - a, t) <= a,
{
    let d = b - a;
    if d >= 0 {
        crate::fixed::lemma_fmul_tint(d, t);
    } else {
        crate::fixed::lemma_fmul_tint(-d, t);
        assert(fmul_s(d, t) == -fmul_s(-d, t)) by (nonlinear_arith)
            requires
                d < 0,
                0 <= t,
                fmul_s(d, t) == qtrunc(d * t, 65536),
                fmul_s(-d, t) == qtrunc((-d) * t, 65536),
                qtrunc(d * t, 65536) == if d * t >= 0 {
                    abs_i(d * t) / 65536
                } else {
                    -(abs_i(d * t) / 65536)
                },
                qtrunc((-d) * t, 65536) == if (-d) * t >= 0 {
                    abs_i((-d) * t) / 65536
                } else {
                    -(abs_i((-d) * t) / 65536)
                },
        ;
    }
}

/// Interpolating between two colours whose channels lie in `[0, bound]`
/// stays in `[0, bound]`.
pub proof fn lemma_lerp_in_range(x: ColourView, y: ColourView, t: int, bound: int)
    requires
        channels_in_range(x, bound),
        channels_in_range(y, bound),
        0 <= t <= ONE,
    ensures
        channels_in_range(lerp_v(x, y, t), bound),
{
    lemma_lerp_scalar_range(x.r, y.r, t);
    lemma_lerp_scalar_range(x.g, y.g, t);
    lemma_lerp_scalar_range(x.b, y.b, t);
    lemma_lerp_scalar_range(x.a, y.a, t);
}

/// The additive fold of colours whose channels lie in `[0, bound]` lies in
/// `[0, ONE + len * bound]` on every channel (the `ONE` coming from the
/// alpha channel of the `black()` the fold starts from).
pub proof fn lemma_sum_bound(s: Seq<Colour>, bound: int)
    requires
        0 <= bound,
        forall|i: int| 0 <= i < s.len() ==> channels_in_range(#[trigger] s[i]@, bound),
    ensures
        0 <= sum_v(s).r <= ONE + s.len() * bound,
        0 <= sum_v(s).g <= ONE + s.len() * bound,
        0 <= sum_v(s).b <= ONE + s.len() * bound,
        0 <= sum_v(s).a <= ONE + s.len() * bound,
    decreases s.len(),
{
    if s.len() == 0 {
        assert(s.len() * bound == 0) by (nonlinear_arith)
            requires
                s.len() == 0,
        ;
    } else {
        let rest = s.drop_last();
        assert(forall|i: int| 0 <= i < rest.len() ==> rest[i] == s[i]);
        lemma_sum_bound(rest, bound);
        assert(s.last() == s[s.len() - 1]);
        assert(channels_in_range(s.last()@, bound));
        assert((s.len() - 1) * bound + bound == s.len() * bound) by (nonlinear_arith)
            requires
                s.len() >= 1,
        ;
    }
}

/// Scaling a colour by two scalars in either grouping gives the same
/// colour up to truncation: each channel of `(x * s) * t` and of
/// `x * (s * t)` differs by at most two units plus the truncation error
/// carried through the outer factors.
pub proof fn lemma_scale_assoc_tolerance(x: ColourView, s: int, t: int)
    ensures
        abs_i(scale_v(scale_v(x, s), t).r - scale_v(x, fmul_s(s, t)).r) <= 2 + (abs_i(x.r)
            + abs_i(t)) / (SCALE as int),
        abs_i(scale_v(scale_v(x, s), t).g - scale_v(x, fmul_s(s, t)).g) <= 2 + (abs_i(x.g)
            + abs_i(t)) / (SCALE as int),
        abs_i(scale_v(scale_v(x, s), t).b - scale_v(x, fmul_s(s, t)).b) <= 2 + (abs_i(x.b)
            + abs_i(t)) / (SCALE as int),
        abs_i(scale_v(scale_v(x, s), t).a - scale_v(x, fmul_s(s, t)).a) <= 2 + (abs_i(x.a)
            + abs_i(t)) / (SCALE as int),
{
    crate::fixed::lemma_fmul_assoc_tolerance(x.r, s, t);
    crate::fixed::lemma_fmul_assoc_tolerance(x.g, s, t);
    crate::fixed::lemma_fmul_assoc_tolerance(x.b, s, t);
    crate::fixed::lemma_fmul_assoc_tolerance(x.a, s, t);
}

/// Colour addition is commutative, exactly.
pub proof fn lemma_add_comm(x: ColourView, y: ColourView)
    ensures
        add_v(x, y) == add_v(y, x),
{
}

/// Colour addition is associative, exactly.
pub proof fn lemma_add_assoc(x: ColourView, y: ColourView, z: ColourView)
    ensures
        add_v(add_v(x, y), z) == add_v(x, add_v(y, z)),
{
}

/// Channel-wise colour multiplication is commutative, exactly.
pub proof fn lemma_mul_comm(x: ColourView, y: ColourView)
    ensures
        mul_v(x, y) == mul_v(y, x),
{
    assert(x.r * y.r == y.r * x.r) by (nonlinear_arith);
    assert(x.g * y.g == y.g * x.g) by (nonlinear_arith);
    assert(x.b * y.b == y.b * x.b) by (nonlinear_arith);
    assert(x.a * y.a == y.a * x.a) by (nonlinear_arith);
}

} // verus!
