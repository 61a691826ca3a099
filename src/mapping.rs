//! Affine maps between coordinate spaces, exact over the rationals.

use vstd::prelude::*;
use crate::geometry::{Axis, Pair, Rect, abs_int, signum_int};

verus! {

broadcast use vstd::array::group_array_axioms;

/// A rational number `num / den`, used to state what a mapping computes.
pub struct Frac {
    pub num: int,
    pub den: int,
}

/// Two fractions with positive denominators that denote the same number.
pub open spec fn same_value(a: Frac, b: Frac) -> bool {
    a.num * b.den == b.num * a.den
}

/// Maps a point to another: the input point first has its axes swapped if
/// `swap` is set, then on each axis `i` it becomes
/// `(input[i] * multiplier[i] + offset[i]) / divisor[i]`.
#[derive(Clone, Copy, Debug)]
pub struct Mapping {
    pub multiplier: Pair<i128>,
    pub offset: Pair<i128>,
    /// Positive in a well-formed mapping (see `wf`).
    pub divisor: Pair<i128>,
    pub swap: bool,
}

/// The other axis when `swapping` is set, else the same axis.
pub open spec fn pick(a: Axis, swapping: bool) -> Axis {
    if swapping {
        a.spec_swap()
    } else {
        a
    }
}

pub open spec fn fits_i128(x: int) -> bool {
    i128::MIN <= x <= i128::MAX
}

impl Mapping {
    pub open spec fn wf(self) -> bool {
        self.divisor.at(Axis::X) > 0 && self.divisor.at(Axis::Y) > 0
    }

    /// The image on output axis `a` of the input value `x` that lands there.
    pub open spec fn eval_axis(self, a: Axis, x: Frac) -> Frac {
        Frac {
            num: x.num * self.multiplier.at(a) + self.offset.at(a) * x.den,
            den: x.den * self.divisor.at(a),
        }
    }

    /// The exact image of a point with rational coordinates.
    pub open spec fn eval(self, p: (Frac, Frac)) -> (Frac, Frac) {
        let q = if self.swap {
            (p.1, p.0)
        } else {
            p
        };
        (self.eval_axis(Axis::X, q.0), self.eval_axis(Axis::Y, q.1))
    }

    /// The input coordinate of `p` that lands on output axis `a`.
    pub open spec fn input_at(self, p: Pair<i64>, a: Axis) -> int {
        p.at(pick(a, self.swap)) as int
    }

    /// The numerator of the image of `p / den` on axis `a`; its denominator is
    /// `den * divisor[a]`.
    pub open spec fn image_num(self, p: Pair<i64>, den: int, a: Axis) -> int {
        self.input_at(p, a) * self.multiplier.at(a) + self.offset.at(a) * den
    }

    pub open spec fn chain_mul(self, next: Mapping, a: Axis) -> int {
        self.multiplier.at(pick(a, next.swap)) * next.multiplier.at(a)
    }

    pub open spec fn chain_off(self, next: Mapping, a: Axis) -> int {
        self.offset.at(pick(a, next.swap)) * next.multiplier.at(a) + next.offset.at(a)
            * self.divisor.at(pick(a, next.swap))
    }

    pub open spec fn chain_div(self, next: Mapping, a: Axis) -> int {
        self.divisor.at(pick(a, next.swap)) * next.divisor.at(a)
    }

    /// The coefficients of `self.chain(next)` on axis `a`, and the two terms
    /// of its offset, fit in an `i128`.
    pub open spec fn chain_fits_axis(self, next: Mapping, a: Axis) -> bool {
        &&& fits_i128(self.chain_mul(next, a))
        &&& fits_i128(self.offset.at(pick(a, next.swap)) * next.multiplier.at(a))
        &&& fits_i128(next.offset.at(a) * self.divisor.at(pick(a, next.swap)))
        &&& fits_i128(self.chain_off(next, a))
        &&& fits_i128(self.chain_div(next, a))
    }

    pub open spec fn chain_fits(self, next: Mapping) -> bool {
        self.chain_fits_axis(next, Axis::X) && self.chain_fits_axis(next, Axis::Y)
    }

    /// The mapping that `chain` builds.
    pub open spec fn chained(self, next: Mapping) -> Mapping {
        Mapping {
            multiplier: Pair(
                [
                    self.chain_mul(next, Axis::X) as i128,
                    self.chain_mul(next, Axis::Y) as i128,
                ],
            ),
            offset: Pair(
                [self.chain_off(next, Axis::X) as i128, self.chain_off(next, Axis::Y) as i128],
            ),
            divisor: Pair(
                [self.chain_div(next, Axis::X) as i128, self.chain_div(next, Axis::Y) as i128],
            ),
            swap: self.swap != next.swap,
        }
    }

    /// Chains a mapping after this one, giving a single mapping that sends
    /// each point where `next` sends the image of it under `self`.
    pub fn chain(&self, next: &Mapping) -> (r: Mapping)
        requires
            self.wf(),
            next.wf(),
            self.chain_fits(*next),
        ensures
            r.wf(),
            r == self.chained(*next),
    {
        // Swaps cancel each other.
        let swap = self.swap != next.swap;
        // Where `next` swaps, the first mapping's output on axis `i` is read by
        // `next` on the other axis: line the first mapping's terms up with it.
        let mut mul0 = self.multiplier;
        let mut off0 = self.offset;
        let mut div0 = self.divisor;
        if next.swap {
            mul0.swap();
            off0.swap();
            div0.swap();
        }
        // ((x * m0 + o0) / d0 * m1 + o1) / d1 == (x * m0 * m1 + o0 * m1 + o1 * d0) / (d0 * d1)
        proof {
            assert(0 < div0.at(Axis::X) * next.divisor.at(Axis::X)) by (nonlinear_arith)
                requires
                    0 < div0.at(Axis::X),
                    0 < next.divisor.at(Axis::X),
            ;
            assert(0 < div0.at(Axis::Y) * next.divisor.at(Axis::Y)) by (nonlinear_arith)
                requires
                    0 < div0.at(Axis::Y),
                    0 < next.divisor.at(Axis::Y),
            ;
        }
        let multiplier = Pair::new(
            mul0.get(Axis::X) * next.multiplier.get(Axis::X),
            mul0.get(Axis::Y) * next.multiplier.get(Axis::Y),
        );
        let offset = Pair::new(
            off0.get(Axis::X) * next.multiplier.get(Axis::X) + next.offset.get(Axis::X) * div0.get(
                Axis::X,
            ),
            off0.get(Axis::Y) * next.multiplier.get(Axis::Y) + next.offset.get(Axis::Y) * div0.get(
                Axis::Y,
            ),
        );
        let divisor = Pair::new(
            div0.get(Axis::X) * next.divisor.get(Axis::X),
            div0.get(Axis::Y) * next.divisor.get(Axis::Y),
        );
        let r = Mapping { multiplier, offset, divisor, swap };
        proof {
            let c = self.chained(*next);
            assert(r.multiplier.0 =~= c.multiplier.0);
            assert(r.offset.0 =~= c.offset.0);
            assert(r.divisor.0 =~= c.divisor.0);
        }
        r
    }

    /// The image numerator of `p / den` on axis `a`, and its two terms, fit in
    /// an `i128`.
    pub open spec fn applicable_axis(self, p: Pair<i64>, den: int, a: Axis) -> bool {
        &&& fits_i128(self.input_at(p, a) * self.multiplier.at(a))
        &&& fits_i128(self.offset.at(a) * den)
        &&& fits_i128(self.image_num(p, den, a))
    }

    pub open spec fn applicable(self, p: Pair<i64>, den: int) -> bool {
        self.applicable_axis(p, den, Axis::X) && self.applicable_axis(p, den, Axis::Y)
    }

    /// The exact image of the point `p / den`, as numerators: on axis `a` the
    /// image is `r[a] / (den * divisor[a])`.
    pub fn apply_exact(&self, p: Pair<i64>, den: i64) -> (r: Pair<i128>)
        requires
            self.applicable(p, den as int),
        ensures
            r.at(Axis::X) == self.image_num(p, den as int, Axis::X),
            r.at(Axis::Y) == self.image_num(p, den as int, Axis::Y),
    {
        let mut q = p;
        if self.swap {
            q.swap();
        }
        let x = q.get(Axis::X) as i128;
        let y = q.get(Axis::Y) as i128;
        let d = den as i128;
        let m = self.multiplier;
        let o = self.offset;
        Pair::new(x * m.get(Axis::X) + o.get(Axis::X) * d, y * m.get(Axis::Y) + o.get(Axis::Y) * d)
    }

    /// Applies the mapping on a point with integer coordinates, rounding the
    /// image down to integers.
    pub fn apply(&self, p: Pair<i64>) -> (r: Pair<i128>)
        requires
            self.wf(),
            self.applicable(p, 1),
        ensures
            r.at(Axis::X) == self.image_num(p, 1, Axis::X) / (self.divisor.at(Axis::X) as int),
            r.at(Axis::Y) == self.image_num(p, 1, Axis::Y) / (self.divisor.at(Axis::Y) as int),
    {
        let n = self.apply_exact(p, 1);
        proof {
            lemma_floor_div_fits(n.at(Axis::X) as int, self.divisor.at(Axis::X) as int);
            lemma_floor_div_fits(n.at(Axis::Y) as int, self.divisor.at(Axis::Y) as int);
        }
        let x = n.get(Axis::X).checked_div_euclid(self.divisor.get(Axis::X));
        let y = n.get(Axis::Y).checked_div_euclid(self.divisor.get(Axis::Y));
        Pair::new(x.unwrap(), y.unwrap())
    }
}

/// The image of `x` on axis `j` under the chained mapping is the image under
/// `b` of the image under `a` that `b` reads on axis `j`.
proof fn lemma_chain_axis(a: Mapping, b: Mapping, j: Axis, x: Frac)
    requires
        a.wf(),
        b.wf(),
        a.chain_fits(b),
    ensures
        a.chained(b).eval_axis(j, x) == b.eval_axis(j, a.eval_axis(pick(j, b.swap), x)),
{
    let k = pick(j, b.swap);
    let c = a.chained(b);
    let (ma, oa, da) = (a.multiplier.at(k) as int, a.offset.at(k) as int, a.divisor.at(k) as int);
    let (mb, ob, db) = (b.multiplier.at(j) as int, b.offset.at(j) as int, b.divisor.at(j) as int);
    assert(c.multiplier.at(j) == ma * mb);
    assert(c.offset.at(j) == oa * mb + ob * da);
    assert(c.divisor.at(j) == da * db);
    let (xn, xd) = (x.num, x.den);
    assert(xn * (ma * mb) == (xn * ma) * mb) by (nonlinear_arith);
    assert((oa * mb + ob * da) * xd == (oa * xd) * mb + ob * (xd * da)) by (nonlinear_arith);
    assert((xn * ma + oa * xd) * mb == (xn * ma) * mb + (oa * xd) * mb) by (nonlinear_arith);
    assert(xd * (da * db) == (xd * da) * db) by (nonlinear_arith);
}

/// Applying `a.chain(b)` to a point gives exactly what applying `a` and then
/// `b` gives, whatever the two mappings swap.
pub proof fn lemma_chain_composes(a: Mapping, b: Mapping, p: (Frac, Frac))
    requires
        a.wf(),
        b.wf(),
        a.chain_fits(b),
    ensures
        a.chained(b).eval(p) == b.eval(a.eval(p)),
{
    let q = if a.swap {
        (p.1, p.0)
    } else {
        p
    };
    lemma_chain_axis(a, b, Axis::X, q.0);
    lemma_chain_axis(a, b, Axis::X, q.1);
    lemma_chain_axis(a, b, Axis::Y, q.0);
    lemma_chain_axis(a, b, Axis::Y, q.1);
}

impl Rect<i64> {
    /// Neither stored axis has zero extent.
    pub open spec fn flat_free(self) -> bool {
        self.min.at(Axis::X) != self.max.at(Axis::X) && self.min.at(Axis::Y) != self.max.at(
            Axis::Y,
        )
    }

    pub open spec fn size_at(self, a: Axis) -> int {
        self.max.at(a) - self.min.at(a)
    }

    /// `-min[a]` when stored axis `a` runs forwards, `min[a]` when it runs backwards.
    pub open spec fn norm_offset(self, a: Axis) -> int {
        if self.size_at(a) > 0 {
            -self.min.at(a)
        } else {
            self.min.at(a) as int
        }
    }

    /// The mapping that `normalizer` builds: on stored axis `a`,
    /// `x -> (x - min[a]) / (max[a] - min[a])`, written with a positive divisor.
    pub open spec fn normalizer_of(self) -> Mapping {
        Mapping {
            multiplier: Pair(
                [
                    signum_int(self.size_at(Axis::X)) as i128,
                    signum_int(self.size_at(Axis::Y)) as i128,
                ],
            ),
            offset: Pair([self.norm_offset(Axis::X) as i128, self.norm_offset(Axis::Y) as i128]),
            divisor: Pair(
                [
                    abs_int(self.size_at(Axis::X)) as i128,
                    abs_int(self.size_at(Axis::Y)) as i128,
                ],
            ),
            swap: self.swaps(),
        }
    }

    /// The mapping that `denormalizer` builds: output axis `a` reads stored
    /// axis `k` (the other one when the rectangle swaps) and is
    /// `x -> min[k] + x * (max[k] - min[k])`.
    pub open spec fn denormalizer_of(self) -> Mapping {
        let kx = pick(Axis::X, self.swaps());
        let ky = pick(Axis::Y, self.swaps());
        Mapping {
            multiplier: Pair([self.size_at(kx) as i128, self.size_at(ky) as i128]),
            offset: Pair([self.min.at(kx) as i128, self.min.at(ky) as i128]),
            divisor: Pair([1i128, 1i128]),
            swap: self.swaps(),
        }
    }

    /// Maps a point of the rectangle into normalized coordinates, `0` at `min`
    /// and `1` at `max` on each stored axis.
    pub fn normalizer(&self) -> (r: Mapping)
        requires
            self.bounded(),
            self.flat_free(),
        ensures
            r.wf(),
            r == self.normalizer_of(),
    {
        let sx = self.max.get(Axis::X) - self.min.get(Axis::X);
        let sy = self.max.get(Axis::Y) - self.min.get(Axis::Y);
        let (mx, ox, dx) = if sx > 0 {
            (1i128, -(self.min.get(Axis::X) as i128), sx as i128)
        } else {
            (-1i128, self.min.get(Axis::X) as i128, -(sx as i128))
        };
        let (my, oy, dy) = if sy > 0 {
            (1i128, -(self.min.get(Axis::Y) as i128), sy as i128)
        } else {
            (-1i128, self.min.get(Axis::Y) as i128, -(sy as i128))
        };
        let r = Mapping {
            multiplier: Pair::new(mx, my),
            offset: Pair::new(ox, oy),
            divisor: Pair::new(dx, dy),
            swap: self.should_swap(),
        };
        proof {
            let n = self.normalizer_of();
            assert(r.multiplier.0 =~= n.multiplier.0);
            assert(r.offset.0 =~= n.offset.0);
            assert(r.divisor.0 =~= n.divisor.0);
        }
        r
    }

    /// Maps a normalized point back into the rectangle.
    pub fn denormalizer(&self) -> (r: Mapping)
        requires
            self.bounded(),
        ensures
            r.wf(),
            r == self.denormalizer_of(),
    {
        let mut multiplier = Pair::new(
            (self.max.get(Axis::X) - self.min.get(Axis::X)) as i128,
            (self.max.get(Axis::Y) - self.min.get(Axis::Y)) as i128,
        );
        let mut offset = Pair::new(self.min.get(Axis::X) as i128, self.min.get(Axis::Y) as i128);
        let swap = self.should_swap();
        if swap {
            multiplier.swap();
            offset.swap();
        }
        let r = Mapping { multiplier, offset, divisor: Pair::new(1, 1), swap };
        proof {
            let d = self.denormalizer_of();
            assert(r.multiplier.0 =~= d.multiplier.0);
            assert(r.offset.0 =~= d.offset.0);
            assert(r.divisor.0 =~= d.divisor.0);
        }
        r
    }
}

/// Normalizing a point against a rectangle and then denormalizing it against
/// the same rectangle gives back the point.
pub proof fn lemma_denormalizer_inverts_normalizer(r: Rect<i64>, p: (Frac, Frac))
    requires
        r.bounded(),
        r.flat_free(),
        p.0.den > 0,
        p.1.den > 0,
    ensures
        same_value(r.denormalizer_of().eval(r.normalizer_of().eval(p)).0, p.0),
        same_value(r.denormalizer_of().eval(r.normalizer_of().eval(p)).1, p.1),
{
    let n = r.normalizer_of();
    let d = r.denormalizer_of();
    let out = d.eval(n.eval(p));
    lemma_round_trip_axis(r, Axis::X, p.0);
    lemma_round_trip_axis(r, Axis::Y, p.1);
    if r.swaps() {
        assert(out.0 == d.eval_axis(Axis::X, n.eval_axis(Axis::Y, p.0)));
        assert(out.1 == d.eval_axis(Axis::Y, n.eval_axis(Axis::X, p.1)));
    } else {
        assert(out.0 == d.eval_axis(Axis::X, n.eval_axis(Axis::X, p.0)));
        assert(out.1 == d.eval_axis(Axis::Y, n.eval_axis(Axis::Y, p.1)));
    }
}

/// One axis of the round trip: the value `x` that lands on output axis `a` is
/// normalized on stored axis `k` and brought back.
proof fn lemma_round_trip_axis(r: Rect<i64>, a: Axis, x: Frac)
    requires
        r.bounded(),
        r.flat_free(),
        x.den > 0,
    ensures
        same_value(
            r.denormalizer_of().eval_axis(a, r.normalizer_of().eval_axis(pick(a, r.swaps()), x)),
            x,
        ),
{
    let k = pick(a, r.swaps());
    let size = r.size_at(k);
    let sg = signum_int(size);
    let mag = abs_int(size);
    let lo = r.min.at(k) as int;
    let n = r.normalizer_of();
    let d = r.denormalizer_of();
    assert(n.multiplier.at(k) == sg);
    assert(n.offset.at(k) == -sg * lo) by {
        if size > 0 {
            assert(sg == 1);
        } else {
            assert(sg == -1);
        }
    }
    assert(n.divisor.at(k) == mag);
    assert(d.multiplier.at(a) == size);
    assert(d.offset.at(a) == lo);
    assert(d.divisor.at(a) == 1);
    assert(sg * size == mag);
    let y = n.eval_axis(k, x);
    let z = d.eval_axis(a, y);
    assert(y.num == x.num * sg + (-sg * lo) * x.den);
    assert(z.num == y.num * size + lo * y.den);
    assert(z.num == mag * x.num) by (nonlinear_arith)
        requires
            z.num == y.num * size + lo * y.den,
            y.num == x.num * sg + (-sg * lo) * x.den,
            y.den == x.den * mag,
            sg * size == mag,
    ;
    assert(z.den == x.den * mag);
    assert(z.num * x.den == x.num * z.den) by (nonlinear_arith)
        requires
            z.num == mag * x.num,
            z.den == x.den * mag,
    ;
}

/// Every coefficient of `m` lies within the given bounds, and every divisor is
/// positive.
pub open spec fn coeffs_within(m: Mapping, mul: int, off: int, div: int) -> bool {
    &&& abs_int(m.multiplier.at(Axis::X) as int) <= mul
    &&& abs_int(m.multiplier.at(Axis::Y) as int) <= mul
    &&& abs_int(m.offset.at(Axis::X) as int) <= off
    &&& abs_int(m.offset.at(Axis::Y) as int) <= off
    &&& 1 <= m.divisor.at(Axis::X) <= div
    &&& 1 <= m.divisor.at(Axis::Y) <= div
}

pub proof fn lemma_mul_abs_le(a: int, b: int, ba: int, bb: int)
    requires
        abs_int(a) <= ba,
        abs_int(b) <= bb,
    ensures
        abs_int(a * b) <= ba * bb,
{
    assert(abs_int(a * b) == abs_int(a) * abs_int(b)) by (nonlinear_arith);
    assert(abs_int(a) * abs_int(b) <= ba * bb) by (nonlinear_arith)
        requires
            0 <= abs_int(a) <= ba,
            0 <= abs_int(b) <= bb,
    ;
}

proof fn lemma_chain_axis_bounds(
    a: Mapping,
    b: Mapping,
    j: Axis,
    ma: int,
    oa: int,
    da: int,
    mb: int,
    ob: int,
    db: int,
)
    requires
        coeffs_within(a, ma, oa, da),
        coeffs_within(b, mb, ob, db),
        ma * mb <= i128::MAX,
        oa * mb + ob * da <= i128::MAX,
        da * db <= i128::MAX,
    ensures
        a.chain_fits_axis(b, j),
        abs_int(a.chain_mul(b, j)) <= ma * mb,
        abs_int(a.chain_off(b, j)) <= oa * mb + ob * da,
        1 <= a.chain_div(b, j) <= da * db,
{
    let k = pick(j, b.swap);
    lemma_mul_abs_le(a.multiplier.at(k) as int, b.multiplier.at(j) as int, ma, mb);
    lemma_mul_abs_le(a.offset.at(k) as int, b.multiplier.at(j) as int, oa, mb);
    lemma_mul_abs_le(b.offset.at(j) as int, a.divisor.at(k) as int, ob, da);
    lemma_mul_abs_le(a.divisor.at(k) as int, b.divisor.at(j) as int, da, db);
    assert(1 <= a.divisor.at(k) * b.divisor.at(j)) by (nonlinear_arith)
        requires
            1 <= a.divisor.at(k),
            1 <= b.divisor.at(j),
    ;
}

/// Bounds on the coefficients of two mappings bound those of their chain.
pub proof fn lemma_chain_bounds(
    a: Mapping,
    b: Mapping,
    ma: int,
    oa: int,
    da: int,
    mb: int,
    ob: int,
    db: int,
)
    requires
        coeffs_within(a, ma, oa, da),
        coeffs_within(b, mb, ob, db),
        ma * mb <= i128::MAX,
        oa * mb + ob * da <= i128::MAX,
        da * db <= i128::MAX,
    ensures
        a.chain_fits(b),
        coeffs_within(a.chained(b), ma * mb, oa * mb + ob * da, da * db),
{
    lemma_chain_axis_bounds(a, b, Axis::X, ma, oa, da, mb, ob, db);
    lemma_chain_axis_bounds(a, b, Axis::Y, ma, oa, da, mb, ob, db);
}

/// Dividing by a positive integer keeps a value within the range of `i128`.
proof fn lemma_floor_div_fits(n: int, d: int)
    requires
        fits_i128(n),
        d >= 1,
    ensures
        fits_i128(n / d),
{
    vstd::arithmetic::div_mod::lemma_fundamental_div_mod(n, d);
    let q = n / d;
    let r = n % d;
    assert(fits_i128(q)) by (nonlinear_arith)
        requires
            n == d * q + r,
            0 <= r < d,
            d >= 1,
            fits_i128(n),
    ;
}

} // verus!
