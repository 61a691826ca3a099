//! Axis-tagged pairs and rectangles whose axes may run in either direction.

use vstd::prelude::*;

verus! {

broadcast use vstd::array::group_array_axioms;

/// One of the two screen axes.
#[derive(Clone, Copy, Debug, PartialEq, Eq, Structural, Hash)]
pub enum Axis {
    X,
    Y,
}

impl Axis {
    pub open spec fn index(self) -> int {
        match self {
            Axis::X => 0,
            Axis::Y => 1,
        }
    }

    pub open spec fn spec_swap(self) -> Axis {
        match self {
            Axis::X => Axis::Y,
            Axis::Y => Axis::X,
        }
    }

    /// The position of this axis inside a [`Pair`].
    pub fn as_index(self) -> (r: usize)
        ensures
            r == self.index(),
    {
        match self {
            Axis::X => 0,
            Axis::Y => 1,
        }
    }

    /// Swaps x to y and y to x.
    pub fn swap(self) -> (r: Axis)
        ensures
            r == self.spec_swap(),
    {
        match self {
            Axis::X => Axis::Y,
            Axis::Y => Axis::X,
        }
    }
}

/// Two values, the first for the x axis and the second for the y axis.
#[derive(Clone, Copy, Debug, Hash)]
pub struct Pair<T>(pub [T; 2]);

impl<T> Pair<T> {
    pub open spec fn at(self, a: Axis) -> T {
        self.0@[a.index()]
    }
}

impl<T: Copy> Pair<T> {

    pub open spec fn swapped(self) -> Pair<T> {
        Pair([self.at(Axis::Y), self.at(Axis::X)])
    }

    pub open spec fn with(self, a: Axis, v: T) -> Pair<T> {
        match a {
            Axis::X => Pair([v, self.at(Axis::Y)]),
            Axis::Y => Pair([self.at(Axis::X), v]),
        }
    }

    pub fn new(x: T, y: T) -> (r: Pair<T>)
        ensures
            r == Pair([x, y]),
            r.at(Axis::X) == x,
            r.at(Axis::Y) == y,
    {
        Pair([x, y])
    }

    /// The value on the given axis.
    pub fn get(&self, a: Axis) -> (r: T)
        ensures
            r == self.at(a),
    {
        self.0[a.as_index()]
    }

    /// Replaces the value on the given axis.
    pub fn set(&mut self, a: Axis, v: T)
        ensures
            *final(self) == old(self).with(a, v),
    {
        let x = self.0[0];
        let y = self.0[1];
        *self = match a {
            Axis::X => Pair([v, y]),
            Axis::Y => Pair([x, v]),
        };
    }

    /// Swaps the x and y values.
    pub fn swap(&mut self)
        ensures
            *final(self) == old(self).swapped(),
    {
        let x = self.0[0];
        let y = self.0[1];
        *self = Pair([y, x]);
    }
}


/// Absolute value and sign of a number.
pub trait Abs: Sized {
    /// Whether the absolute value can be represented.
    spec fn abs_defined(self) -> bool;

    spec fn abs_of(self) -> Self;

    spec fn signum_of(self) -> Self;

    fn abs(self) -> (r: Self)
        requires
            self.abs_defined(),
        ensures
            r == self.abs_of(),
    ;

    fn signum(self) -> (r: Self)
        ensures
            r == self.signum_of(),
    ;
}

impl Abs for i64 {
    open spec fn abs_defined(self) -> bool {
        self != i64::MIN
    }

    open spec fn abs_of(self) -> i64 {
        if self < 0 {
            (-self) as i64
        } else {
            self
        }
    }

    open spec fn signum_of(self) -> i64 {
        if self < 0 {
            -1i64
        } else if self == 0 {
            0i64
        } else {
            1i64
        }
    }

    fn abs(self) -> (r: i64) {
        if self < 0 {
            -self
        } else {
            self
        }
    }

    fn signum(self) -> (r: i64) {
        if self < 0 {
            -1
        } else if self == 0 {
            0
        } else {
            1
        }
    }
}

/// Whether an axis of a rectangle runs towards larger (`Positive`) or smaller
/// (`Negative`) values from `min` to `max`.
#[derive(Clone, Copy, Debug, PartialEq, Eq, Structural, Hash)]
pub enum Sign {
    Positive,
    Negative,
}

impl Sign {
    pub open spec fn of(min: int, max: int) -> Sign {
        if max >= min {
            Sign::Positive
        } else {
            Sign::Negative
        }
    }

    pub fn from_cmp(min: i64, max: i64) -> (r: Sign)
        ensures
            r == Sign::of(min as int, max as int),
    {
        if max >= min {
            Sign::Positive
        } else {
            Sign::Negative
        }
    }
}

/// Classifies a shape by comparing its absolute width to its absolute height:
/// wider (`Landscape`), as wide as high (`Square`) or higher (`Portrait`).
#[derive(Clone, Copy, Debug, Hash)]
pub enum Aspect {
    Landscape,
    Square,
    Portrait,
}

impl Aspect {
    /// Two aspects match unless one is landscape and the other portrait: a
    /// square fits either orientation.
    pub open spec fn compatible(self, o: Aspect) -> bool {
        !((self is Landscape && o is Portrait) || (self is Portrait && o is Landscape))
    }
}

impl PartialEq for Aspect {
    fn eq(&self, o: &Aspect) -> (r: bool) {
        match (*self, *o) {
            (Aspect::Landscape, Aspect::Portrait) => false,
            (Aspect::Portrait, Aspect::Landscape) => false,
            _ => true,
        }
    }
}

impl vstd::std_specs::cmp::PartialEqSpecImpl for Aspect {
    open spec fn obeys_eq_spec() -> bool {
        true
    }

    open spec fn eq_spec(&self, o: &Aspect) -> bool {
        self.compatible(*o)
    }
}

/// A rectangle given by two corners. Either axis may run backwards
/// (`max < min` on it): a flipped axis records an orientation.
#[derive(Clone, Copy, Debug)]
pub struct Rect<T> {
    pub min: Pair<T>,
    pub max: Pair<T>,
}

impl<T: Copy> Rect<T> {
    pub open spec fn rotated_negative(self) -> Rect<T> {
        Rect {
            min: Pair([self.min.at(Axis::Y), self.max.at(Axis::X)]),
            max: Pair([self.max.at(Axis::Y), self.min.at(Axis::X)]),
        }
    }

    pub open spec fn rotated_positive(self) -> Rect<T> {
        Rect {
            min: Pair([self.max.at(Axis::Y), self.min.at(Axis::X)]),
            max: Pair([self.min.at(Axis::Y), self.max.at(Axis::X)]),
        }
    }

    /// Rotates the rectangle orientation by +90 degrees (counterclockwise) in a
    /// standard cartesian system, clockwise in a system whose Y axis points down.
    /// The new x axis is the old y axis reversed; the new y axis is the old x axis.
    pub fn rotate_positive(&mut self)
        ensures
            *final(self) == old(self).rotated_positive(),
    {
        self.min.swap();
        self.max.swap();
        let a = self.min.get(Axis::X);
        let b = self.max.get(Axis::X);
        self.min.set(Axis::X, b);
        self.max.set(Axis::X, a);
    }

    /// Rotates the rectangle orientation by -90 degrees (clockwise) in a
    /// standard cartesian system, counterclockwise in a system whose Y axis
    /// points down. The new x axis is the old y axis; the new y axis is the old
    /// x axis reversed.
    pub fn rotate_negative(&mut self)
        ensures
            *final(self) == old(self).rotated_negative(),
    {
        self.min.swap();
        self.max.swap();
        let a = self.min.get(Axis::Y);
        let b = self.max.get(Axis::Y);
        self.min.set(Axis::Y, b);
        self.max.set(Axis::Y, a);
    }

    /// Rotates the rectangle by 180 degrees: both axes reverse.
    pub fn rotate_full(&mut self)
        ensures
            final(self).min == old(self).max,
            final(self).max == old(self).min,
    {
        let m = self.min;
        self.min = self.max;
        self.max = m;
    }
}


/// Largest magnitude of a coordinate on which the arithmetic of [`Rect`] is
/// defined: sizes of such rectangles, and their sums, fit in an `i64`.
pub const COORD_LIMIT: i64 = 0x2000_0000_0000_0000;

pub open spec fn abs_int(x: int) -> int {
    if x < 0 {
        -x
    } else {
        x
    }
}

pub open spec fn signum_int(x: int) -> int {
    if x < 0 {
        -1
    } else if x == 0 {
        0
    } else {
        1
    }
}

/// `v` lies between `a` and `b`, whichever is larger.
pub open spec fn between(v: int, a: int, b: int) -> bool {
    (a <= v <= b) || (b <= v <= a)
}

/// Halves, rounding towards zero.
pub open spec fn half_toward_zero(x: int) -> int {
    if x >= 0 {
        x / 2
    } else {
        -((-x) / 2)
    }
}

/// A nonnegative ratio `num / den`, kept as its two terms so that it is exact.
#[derive(Clone, Copy, Debug, PartialEq, Eq, Structural, Hash)]
pub struct Ratio {
    pub num: u64,
    pub den: u64,
}

impl Ratio {
    /// Orders two ratios by value (`a/b < c/d` iff `a*d < c*b` for positive
    /// denominators).
    pub open spec fn order(self, o: Ratio) -> core::cmp::Ordering {
        let l = self.num as int * o.den as int;
        let r = o.num as int * self.den as int;
        if l < r {
            core::cmp::Ordering::Less
        } else if l == r {
            core::cmp::Ordering::Equal
        } else {
            core::cmp::Ordering::Greater
        }
    }

    /// Compares the values of two ratios.
    pub fn compare(&self, o: &Ratio) -> (r: core::cmp::Ordering)
        ensures
            r == self.order(*o),
    {
        proof {
            let (a, b, c, d) = (self.num as int, self.den as int, o.num as int, o.den as int);
            assert(0 <= a * d <= u64::MAX * u64::MAX) by (nonlinear_arith)
                requires
                    0 <= a <= u64::MAX,
                    0 <= d <= u64::MAX,
            ;
            assert(0 <= c * b <= u64::MAX * u64::MAX) by (nonlinear_arith)
                requires
                    0 <= c <= u64::MAX,
                    0 <= b <= u64::MAX,
            ;
        }
        let l = self.num as u128 * o.den as u128;
        let r = o.num as u128 * self.den as u128;
        if l < r {
            core::cmp::Ordering::Less
        } else if l == r {
            core::cmp::Ordering::Equal
        } else {
            core::cmp::Ordering::Greater
        }
    }
}

impl Rect<i64> {
    /// Every coordinate lies within `COORD_LIMIT` of zero.
    pub open spec fn bounded(self) -> bool {
        &&& -COORD_LIMIT <= self.min.at(Axis::X) <= COORD_LIMIT
        &&& -COORD_LIMIT <= self.min.at(Axis::Y) <= COORD_LIMIT
        &&& -COORD_LIMIT <= self.max.at(Axis::X) <= COORD_LIMIT
        &&& -COORD_LIMIT <= self.max.at(Axis::Y) <= COORD_LIMIT
    }

    pub open spec fn sign_of(self, a: Axis) -> Sign {
        Sign::of(self.min.at(a) as int, self.max.at(a) as int)
    }

    /// The two axes run in different directions.
    pub open spec fn swaps(self) -> bool {
        self.sign_of(Axis::X) != self.sign_of(Axis::Y)
    }

    /// The stored axis that holds the given virtual axis.
    pub open spec fn raw_axis(self, a: Axis) -> Axis {
        if self.swaps() {
            a.spec_swap()
        } else {
            a
        }
    }

    pub open spec fn vmin(self, a: Axis) -> int {
        self.min.at(self.raw_axis(a)) as int
    }

    pub open spec fn vmax(self, a: Axis) -> int {
        self.max.at(self.raw_axis(a)) as int
    }

    pub open spec fn vsize(self, a: Axis) -> int {
        self.vmax(a) - self.vmin(a)
    }

    pub open spec fn aspect_of(self) -> Aspect {
        let w = abs_int(self.vsize(Axis::X));
        let h = abs_int(self.vsize(Axis::Y));
        if w > h {
            Aspect::Landscape
        } else if w == h {
            Aspect::Square
        } else {
            Aspect::Portrait
        }
    }

    /// Neither virtual axis has zero extent.
    pub open spec fn nondegenerate(self) -> bool {
        self.vsize(Axis::X) != 0 && self.vsize(Axis::Y) != 0
    }

    /// The rectangle after `resize_virtual_axis(axis, target)`.
    pub open spec fn resized(self, axis: Axis, target: int) -> Rect<i64> {
        let raw = self.raw_axis(axis);
        let size = self.vsize(axis);
        let h = half_toward_zero((abs_int(target) - abs_int(size)) * signum_int(size));
        Rect {
            min: self.min.with(raw, (self.min.at(raw) - h) as i64),
            max: self.max.with(raw, (self.max.at(raw) + h) as i64),
        }
    }

    /// Is the max larger than the min in the given axis?
    pub fn sign(&self, idx: Axis) -> (r: Sign)
        ensures
            r == self.sign_of(idx),
    {
        Sign::from_cmp(self.min.get(idx), self.max.get(idx))
    }

    /// The direction of each axis.
    pub fn sign_pair(&self) -> (r: Pair<Sign>)
        ensures
            r.at(Axis::X) == self.sign_of(Axis::X),
            r.at(Axis::Y) == self.sign_of(Axis::Y),
    {
        Pair::new(self.sign(Axis::X), self.sign(Axis::Y))
    }

    /// Whether the axes run in different directions, so that input points
    /// should have their axes swapped.
    pub fn should_swap(&self) -> (r: bool)
        ensures
            r == self.swaps(),
    {
        self.sign(Axis::X) != self.sign(Axis::Y)
    }

    /// The stored axis that holds the given virtual axis.
    pub fn devirtualize(&self, idx: Axis) -> (r: Axis)
        ensures
            r == self.raw_axis(idx),
    {
        if self.should_swap() {
            idx.swap()
        } else {
            idx
        }
    }

    /// The minimum on the given virtual axis.
    pub fn virtual_min(&self, idx: Axis) -> (r: i64)
        ensures
            r == self.vmin(idx),
    {
        self.min.get(self.devirtualize(idx))
    }

    /// The maximum on the given virtual axis.
    pub fn virtual_max(&self, idx: Axis) -> (r: i64)
        ensures
            r == self.vmax(idx),
    {
        self.max.get(self.devirtualize(idx))
    }

    /// The signed extent of the given virtual axis, `max - min`.
    pub fn virtual_size(&self, idx: Axis) -> (r: i64)
        requires
            self.bounded(),
        ensures
            r == self.vsize(idx),
    {
        self.virtual_max(idx) - self.virtual_min(idx)
    }

    /// The signed extent of the virtual x axis.
    pub fn virtual_width(&self) -> (r: i64)
        requires
            self.bounded(),
        ensures
            r == self.vsize(Axis::X),
    {
        self.virtual_size(Axis::X)
    }

    /// The signed extent of the virtual y axis.
    pub fn virtual_height(&self) -> (r: i64)
        requires
            self.bounded(),
        ensures
            r == self.vsize(Axis::Y),
    {
        self.virtual_size(Axis::Y)
    }

    /// The aspect ratio `|width / height|`.
    pub fn aspect_ratio(&self) -> (r: Ratio)
        requires
            self.bounded(),
        ensures
            r.num == abs_int(self.vsize(Axis::X)),
            r.den == abs_int(self.vsize(Axis::Y)),
    {
        Ratio { num: Abs::abs(self.virtual_width()) as u64, den: Abs::abs(self.virtual_height()) as u64 }
    }

    /// The inverse aspect ratio `|height / width|`.
    pub fn inv_aspect_ratio(&self) -> (r: Ratio)
        requires
            self.bounded(),
        ensures
            r.num == abs_int(self.vsize(Axis::Y)),
            r.den == abs_int(self.vsize(Axis::X)),
    {
        Ratio { num: Abs::abs(self.virtual_height()) as u64, den: Abs::abs(self.virtual_width()) as u64 }
    }

    /// How the absolute width compares to the absolute height.
    pub fn aspect(&self) -> (r: Aspect)
        requires
            self.bounded(),
        ensures
            r == self.aspect_of(),
    {
        let w = Abs::abs(self.virtual_width());
        let h = Abs::abs(self.virtual_height());
        if w > h {
            Aspect::Landscape
        } else if w == h {
            Aspect::Square
        } else {
            Aspect::Portrait
        }
    }

    /// Resizes a virtual axis to the absolute size of `target`, keeping the
    /// rectangle centered on it: both ends move by half the difference, in
    /// opposite directions, so the sum `min + max` on that axis is kept.
    pub fn resize_virtual_axis(&mut self, axis: Axis, target: i64)
        requires
            old(self).bounded(),
            -2 * COORD_LIMIT <= target <= 2 * COORD_LIMIT,
        ensures
            *final(self) == old(self).resized(axis, target as int),
    {
        let raw_idx = self.devirtualize(axis);
        let size = self.virtual_size(axis);
        let diff = (Abs::abs(target) - Abs::abs(size)) * Abs::signum(size);
        let half = if diff >= 0 {
            diff / 2
        } else {
            -((-diff) / 2)
        };
        let lo = self.min.get(raw_idx) - half;
        let hi = self.max.get(raw_idx) + half;
        self.min.set(raw_idx, lo);
        self.max.set(raw_idx, hi);
    }
}

impl<T: Copy> Rect<T> {
    /// Applies `f` to each coordinate.
    pub fn map<U: Copy, F: Fn(T) -> U>(self, f: F) -> (r: Rect<U>)
        requires
            forall|t: T| f.requires((t,)),
        ensures
            f.ensures((self.min.at(Axis::X),), r.min.at(Axis::X)),
            f.ensures((self.min.at(Axis::Y),), r.min.at(Axis::Y)),
            f.ensures((self.max.at(Axis::X),), r.max.at(Axis::X)),
            f.ensures((self.max.at(Axis::Y),), r.max.at(Axis::Y)),
    {
        let a = f(self.min.get(Axis::X));
        let b = f(self.min.get(Axis::Y));
        let c = f(self.max.get(Axis::X));
        let d = f(self.max.get(Axis::Y));
        Rect { min: Pair::new(a, b), max: Pair::new(c, d) }
    }
}

impl Rect<i32> {
    /// The same rectangle with wider coordinates.
    pub fn cast(self) -> (r: Rect<i64>)
        ensures
            r.min.at(Axis::X) == self.min.at(Axis::X),
            r.min.at(Axis::Y) == self.min.at(Axis::Y),
            r.max.at(Axis::X) == self.max.at(Axis::X),
            r.max.at(Axis::Y) == self.max.at(Axis::Y),
            r.bounded(),
    {
        self.map(|t: i32| -> (u: i64)
            ensures
                u == t,
            { t as i64 })
    }
}

/// Shrinking a virtual axis to `t` keeps the rectangle inside its old extent
/// and centered on that axis (the sum `min + max` is kept exactly), and leaves
/// the absolute extent at `t`, or at `t + 1` where the difference was odd. The
/// other stored axis is untouched.
pub proof fn lemma_shrink_centered(r: Rect<i64>, axis: Axis, t: int)
    requires
        r.bounded(),
        0 <= t <= abs_int(r.vsize(axis)),
    ensures
        ({
            let n = r.resized(axis, t);
            let raw = r.raw_axis(axis);
            let other = raw.spec_swap();
            &&& n.bounded()
            &&& between(n.min.at(raw) as int, r.min.at(raw) as int, r.max.at(raw) as int)
            &&& between(n.max.at(raw) as int, r.min.at(raw) as int, r.max.at(raw) as int)
            &&& n.min.at(raw) + n.max.at(raw) == r.min.at(raw) + r.max.at(raw)
            &&& abs_int(n.max.at(raw) - n.min.at(raw)) == t || abs_int(n.max.at(raw) - n.min.at(
                raw,
            )) == t + 1
            &&& n.min.at(other) == r.min.at(other)
            &&& n.max.at(other) == r.max.at(other)
        }),
{
    let raw = r.raw_axis(axis);
    let size = r.vsize(axis);
    assert(size == r.max.at(raw) - r.min.at(raw));
    let diff = (abs_int(t) - abs_int(size)) * signum_int(size);
    let h = half_toward_zero(diff);
    if size > 0 {
        assert(diff == t - size);
        assert(-size <= 2 * h <= 0);
    } else if size < 0 {
        assert(diff == -t - size);
        assert(0 <= 2 * h <= -size);
    } else {
        assert(diff == 0);
    }
}

/// Turning a rectangle by +90 degrees and then by -90 degrees, or the other
/// way round, gives back the rectangle it started from.
pub proof fn lemma_rotations_cancel<T: Copy>(r: Rect<T>)
    ensures
        r.rotated_positive().rotated_negative() == r,
        r.rotated_negative().rotated_positive() == r,
{
    assert(r.rotated_positive().rotated_negative().min.0 =~= r.min.0);
    assert(r.rotated_positive().rotated_negative().max.0 =~= r.max.0);
    assert(r.rotated_negative().rotated_positive().min.0 =~= r.min.0);
    assert(r.rotated_negative().rotated_positive().max.0 =~= r.max.0);
}

} // verus!
