//! Turning the device's screen geometry and the local configuration into one
//! mapping from device positions to cursor positions, plus event filters.

use vstd::prelude::*;
use crate::geometry::{Abs, Axis, Pair, Rect, abs_int, lemma_shrink_centered};
use crate::mapping::{Mapping, coeffs_within, lemma_chain_bounds, lemma_mul_abs_le};
use crate::session::ServerInfo;

verus! {

broadcast use vstd::array::group_array_axioms;

/// The integer that stands for `1.0` in normalized coordinates: a normalized
/// rectangle runs from `0` to `NORMALIZED_ONE` across the device screen.
pub const NORMALIZED_ONE: i64 = 10000;

/// Where to reach the device.
#[derive(Clone, Debug)]
pub enum Remote {
    Tcp(String, u16),
    Udp(String, u16),
}

/// Local policy, loaded once at startup.
#[derive(Clone, Debug)]
pub struct Config {
    /// The target area to be mapped, in screen pixels.
    pub target: Rect<i32>,
    /// The source area to be mapped, in normalized coordinates from `0` to
    /// `NORMALIZED_ONE`.
    pub source: Rect<i32>,
    /// After all transformations, clip mouse positions to this rectangle.
    pub clip: Rect<i32>,
    /// If the device screen is rotated, rotate it back to compensate.
    pub correct_device_orientation: bool,
    /// If after all transformations the source area is rotated, rotate it back
    /// to match the target orientation (landscape or portrait).
    pub correct_orientation: bool,
    /// If the source area does not have the same aspect ratio as the target
    /// area, shrink it a bit in a single axis to fit.
    pub keep_aspect_ratio: bool,
    /// Only allow touches within this pressure range to go through; a missing
    /// bound does not limit.
    pub pressure_range: [Option<i64>; 2],
    /// Only allow touches within this size range to go through.
    pub size_range: [Option<i64>; 2],
    /// Connect to this remote.
    pub remote: Remote,
    /// When forwarding a port over USB, map this port on the device.
    pub android_usb_port: u16,
    /// Whether to attempt to forward a port over USB automatically.
    pub android_attempt_usb_connection: bool,
}

/// The rectangle with the same corners in wider coordinates.
pub open spec fn widen(r: Rect<i32>) -> Rect<i64> {
    Rect {
        min: Pair([r.min.at(Axis::X) as i64, r.min.at(Axis::Y) as i64]),
        max: Pair([r.max.at(Axis::X) as i64, r.max.at(Axis::Y) as i64]),
    }
}

pub open spec fn in_unit(v: i32) -> bool {
    0 <= v <= NORMALIZED_ONE
}

impl Config {
    /// The default configuration for a local screen of the given size.
    pub fn default_for(screen_res: Pair<i32>) -> (r: Config)
        ensures
            r.target == (Rect { min: Pair([0i32, 0i32]), max: screen_res }),
            r.clip == r.target,
            r.source == (Rect { min: Pair([500i32, 500i32]), max: Pair([9500i32, 9500i32]) }),
            r.correct_device_orientation,
            r.correct_orientation,
            r.keep_aspect_ratio,
            r.pressure_range == [None::<i64>, None::<i64>],
            r.size_range == [None::<i64>, None::<i64>],
            r.remote is Tcp,
            r.remote->Tcp_0@ == "localhost"@,
            r.remote->Tcp_1 == 8517,
            r.android_usb_port == 8517,
            r.android_attempt_usb_connection,
    {
        Config {
            target: Rect { min: Pair::new(0, 0), max: screen_res },
            source: Rect { min: Pair::new(500, 500), max: Pair::new(9500, 9500) },
            clip: Rect { min: Pair::new(0, 0), max: screen_res },
            correct_device_orientation: true,
            correct_orientation: true,
            keep_aspect_ratio: true,
            pressure_range: [None, None],
            size_range: [None, None],
            remote: Remote::Tcp(String::from_str("localhost"), 8517),
            android_usb_port: 8517,
            android_attempt_usb_connection: true,
        }
    }

    /// Every corner of the source area lies within the device screen.
    pub open spec fn source_normalized(self) -> bool {
        &&& in_unit(self.source.min.at(Axis::X))
        &&& in_unit(self.source.min.at(Axis::Y))
        &&& in_unit(self.source.max.at(Axis::X))
        &&& in_unit(self.source.max.at(Axis::Y))
    }
}


/// The device screen, in pixels, with its origin at zero.
pub open spec fn device_area(res: Pair<i32>) -> Rect<i64> {
    Rect {
        min: Pair([0i64, 0i64]),
        max: Pair([res.at(Axis::X) as i64, res.at(Axis::Y) as i64]),
    }
}

/// `r` turned by -90 degrees when `enabled` and its aspect does not match the
/// target's.
pub open spec fn orient(r: Rect<i64>, enabled: bool, target: Rect<i64>) -> Rect<i64> {
    if enabled && !r.aspect_of().compatible(target.aspect_of()) {
        r.rotated_negative()
    } else {
        r
    }
}

/// The part of `r` that the normalized rectangle `part` selects: each corner
/// of `part`, divided by `NORMALIZED_ONE`, sent through the denormalizer of
/// `r`. The result is kept exact by counting in units of `1 / NORMALIZED_ONE`
/// of the units of `r`.
pub open spec fn carve(r: Rect<i64>, part: Rect<i64>) -> Rect<i64> {
    let d = r.denormalizer_of();
    let n = NORMALIZED_ONE as int;
    Rect {
        min: Pair(
            [d.image_num(part.min, n, Axis::X) as i64, d.image_num(part.min, n, Axis::Y) as i64],
        ),
        max: Pair(
            [d.image_num(part.max, n, Axis::X) as i64, d.image_num(part.max, n, Axis::Y) as i64],
        ),
    }
}

/// The extent that virtual axis `axis` of `s` must have for `s` to take the
/// aspect ratio of `t`, rounded down.
pub open spec fn shrink_target(s: Rect<i64>, t: Rect<i64>, axis: Axis) -> int {
    let fixed = axis.spec_swap();
    abs_int(t.vsize(axis)) * abs_int(s.vsize(fixed)) / abs_int(t.vsize(fixed))
}

/// `s` with one virtual axis shrunk, centered, so that its aspect ratio
/// matches that of `t`: the height where `t` is relatively wider, the width
/// where it is relatively higher.
pub open spec fn fit_aspect(s: Rect<i64>, t: Rect<i64>, enabled: bool) -> Rect<i64> {
    let wide = abs_int(t.vsize(Axis::X)) * abs_int(s.vsize(Axis::Y));
    let high = abs_int(s.vsize(Axis::X)) * abs_int(t.vsize(Axis::Y));
    if !enabled || wide == high {
        s
    } else if wide > high {
        s.resized(Axis::Y, shrink_target(s, t, Axis::Y))
    } else {
        s.resized(Axis::X, shrink_target(s, t, Axis::X))
    }
}

/// The area of the device screen that is mapped onto the target, in units of
/// `1 / NORMALIZED_ONE` of a device pixel.
pub open spec fn source_area(info: ServerInfo, config: Config) -> Rect<i64> {
    let target = widen(config.target);
    let s = orient(device_area(info.server_screen_res), config.correct_device_orientation, target);
    let s = carve(s, widen(config.source));
    let s = orient(s, config.correct_orientation, target);
    fit_aspect(s, target, config.keep_aspect_ratio)
}

/// A setup can be built: the source area is normalized, and neither the target
/// nor the resulting source area is flat on an axis.
pub open spec fn buildable(info: ServerInfo, config: Config) -> bool {
    &&& config.source_normalized()
    &&& widen(config.target).flat_free()
    &&& source_area(info, config).flat_free()
}

/// Scales device pixels to units of `1 / NORMALIZED_ONE` pixel.
pub open spec fn subpixel_scale() -> Mapping {
    Mapping {
        multiplier: Pair([NORMALIZED_ONE as i128, NORMALIZED_ONE as i128]),
        offset: Pair([0i128, 0i128]),
        divisor: Pair([1i128, 1i128]),
        swap: false,
    }
}

/// Device pixels, scaled, normalized against the source area and then
/// denormalized into the target.
pub open spec fn setup_mapping(info: ServerInfo, config: Config) -> Mapping {
    subpixel_scale().chained(source_area(info, config).normalizer_of()).chained(
        widen(config.target).denormalizer_of(),
    )
}

pub open spec fn bound_or(b: Option<i64>, d: i64) -> i64 {
    match b {
        Some(v) => v,
        None => d,
    }
}

pub open spec fn setup_of(info: ServerInfo, config: Config) -> Setup {
    Setup {
        mapping: setup_mapping(info, config),
        clip: config.clip,
        pressure: [
            bound_or(config.pressure_range[0], i64::MIN),
            bound_or(config.pressure_range[1], i64::MAX),
        ],
        size: [bound_or(config.size_range[0], i64::MIN), bound_or(config.size_range[1], i64::MAX)],
    }
}

/// Every coordinate of `r` lies within `b` of zero.
pub open spec fn within(r: Rect<i64>, b: int) -> bool {
    &&& abs_int(r.min.at(Axis::X) as int) <= b
    &&& abs_int(r.min.at(Axis::Y) as int) <= b
    &&& abs_int(r.max.at(Axis::X) as int) <= b
    &&& abs_int(r.max.at(Axis::Y) as int) <= b
}

pub open spec fn clamp(v: int, lo: int, hi: int) -> int {
    let v = if v < lo {
        lo
    } else {
        v
    };
    if v > hi {
        hi
    } else {
        v
    }
}

/// A touch reported by the device.
#[derive(Clone, Copy, Debug)]
pub struct MouseMove {
    /// Position in device pixels.
    pub pos: Pair<i32>,
    /// Pressure, in the unit of the configured pressure range.
    pub pressure: i64,
    /// Contact size, in the unit of the configured size range.
    pub size: i64,
}

/// The resolved mapping and filters for one session.
#[derive(Clone, Copy, Debug)]
pub struct Setup {
    /// Map from input device coordinates to output client coordinates.
    pub mapping: Mapping,
    /// A minimum and a maximum on the final client coordinates.
    pub clip: Rect<i32>,
    /// A range of pressures: events with a pressure outside it are ignored.
    pub pressure: [i64; 2],
    /// A range of sizes, like `pressure`.
    pub size: [i64; 2],
}

/// Clamps `v` into `[lo, hi]`, checking the lower bound first.
fn clamp_to(v: i128, lo: i32, hi: i32) -> (r: i32)
    ensures
        r == clamp(v as int, lo as int, hi as int),
{
    let v = if v < lo as i128 {
        lo as i128
    } else {
        v
    };
    if v > hi as i128 {
        hi
    } else {
        v as i32
    }
}

/// A corner of a normalized rectangle, carried into a rectangle of pixels,
/// stays small.
proof fn lemma_carve_corner(r: Rect<i64>, p: Pair<i64>, a: Axis)
    requires
        within(r, 0x8000_0000),
        abs_int(p.at(Axis::X) as int) <= NORMALIZED_ONE,
        abs_int(p.at(Axis::Y) as int) <= NORMALIZED_ONE,
    ensures
        r.denormalizer_of().applicable_axis(p, NORMALIZED_ONE as int, a),
        abs_int(r.denormalizer_of().image_num(p, NORMALIZED_ONE as int, a)) <= 0x8000_0000_0000,
{
    let d = r.denormalizer_of();
    let n = NORMALIZED_ONE as int;
    assert(abs_int(d.multiplier.at(a) as int) <= 0x1_0000_0000);
    assert(abs_int(d.offset.at(a) as int) <= 0x8000_0000);
    assert(abs_int(d.input_at(p, a)) <= n);
    lemma_mul_abs_le(d.input_at(p, a), d.multiplier.at(a) as int, n, 0x1_0000_0000);
    lemma_mul_abs_le(d.offset.at(a) as int, n, 0x8000_0000, n);
}

/// The corners of `part`, a normalized rectangle, carried into `r`.
fn carve_area(r: &Rect<i64>, part: &Rect<i64>) -> (c: Rect<i64>)
    requires
        within(*r, 0x8000_0000),
        within(*part, NORMALIZED_ONE as int),
    ensures
        c == carve(*r, *part),
        within(c, 0x8000_0000_0000),
{
    let d = r.denormalizer();
    proof {
        lemma_carve_corner(*r, part.min, Axis::X);
        lemma_carve_corner(*r, part.min, Axis::Y);
        lemma_carve_corner(*r, part.max, Axis::X);
        lemma_carve_corner(*r, part.max, Axis::Y);
    }
    let lo = d.apply_exact(part.min, NORMALIZED_ONE);
    let hi = d.apply_exact(part.max, NORMALIZED_ONE);
    let c = Rect {
        min: Pair::new(lo.get(Axis::X) as i64, lo.get(Axis::Y) as i64),
        max: Pair::new(hi.get(Axis::X) as i64, hi.get(Axis::Y) as i64),
    };
    proof {
        assert(c.min.0 =~= carve(*r, *part).min.0);
        assert(c.max.0 =~= carve(*r, *part).max.0);
    }
    c
}

/// `x / c < d` for a nonnegative `x < c * d`.
proof fn lemma_div_below(x: int, c: int, d: int)
    requires
        0 <= x,
        0 < c,
        x < c * d,
    ensures
        0 <= x / c < d,
{
    vstd::arithmetic::div_mod::lemma_fundamental_div_mod(x, c);
    let q = x / c;
    let m = x % c;
    assert(0 <= q < d) by (nonlinear_arith)
        requires
            x == c * q + m,
            0 <= m < c,
            0 <= x,
            x < c * d,
    ;
}

/// The shrunk extent `a * b / c` is computed without overflow and is shorter
/// than the extent `e` it replaces.
proof fn lemma_shrink_amount(a: int, b: int, c: int, e: int)
    requires
        0 <= a <= 0x1_0000_0000,
        0 <= b <= 0x1_0000_0000_0000,
        0 < c,
        a * b < e * c,
    ensures
        0 <= a * b <= 0x1_0000_0000 * 0x1_0000_0000_0000,
        0 <= (a * b) / c < e,
{
    assert(0 <= a * b <= 0x1_0000_0000 * 0x1_0000_0000_0000) by (nonlinear_arith)
        requires
            0 <= a <= 0x1_0000_0000,
            0 <= b <= 0x1_0000_0000_0000,
    ;
    assert(a * b < c * e) by (nonlinear_arith)
        requires
            a * b < e * c,
    ;
    lemma_div_below(a * b, c, e);
}

/// Shrinks virtual axis `axis` of `s`, which is relatively too long, so that
/// the aspect ratio of `s` matches that of `t`.
#[verifier::rlimit(40)]
fn shrink_to_match(s: &mut Rect<i64>, t: &Rect<i64>, axis: Axis)
    requires
        within(*old(s), 0x8000_0000_0000),
        within(*t, 0x8000_0000),
        t.vsize(Axis::X) != 0,
        t.vsize(Axis::Y) != 0,
        abs_int(t.vsize(axis)) * abs_int(old(s).vsize(axis.spec_swap())) < abs_int(
            old(s).vsize(axis),
        ) * abs_int(t.vsize(axis.spec_swap())),
    ensures
        *final(s) == old(s).resized(axis, shrink_target(*old(s), *t, axis)),
        within(*final(s), 0x8000_0000_0000),
{
    let ghost s0 = *s;
    let fixed = axis.swap();
    let a = Abs::abs(t.virtual_size(axis)) as u128;
    let b = Abs::abs(s.virtual_size(fixed)) as u128;
    let c = Abs::abs(t.virtual_size(fixed)) as u128;
    proof {
        lemma_shrink_amount(a as int, b as int, c as int, abs_int(s0.vsize(axis)));
    }
    let n = (a * b) / c;
    s.resize_virtual_axis(axis, n as i64);
    proof {
        lemma_shrink_centered(s0, axis, n as int);
    }
}

/// Shrinks one virtual axis of `s` so that its aspect ratio matches `t`.
fn fit_aspect_area(s: &mut Rect<i64>, t: &Rect<i64>)
    requires
        within(*old(s), 0x8000_0000_0000),
        within(*t, 0x8000_0000),
        t.flat_free(),
    ensures
        *final(s) == fit_aspect(*old(s), *t, true),
        within(*final(s), 0x8000_0000_0000),
{
    let tr = t.aspect_ratio();
    let sr = s.aspect_ratio();
    proof {
        assert(t.vsize(Axis::X) != 0 && t.vsize(Axis::Y) != 0);
    }
    match tr.compare(&sr) {
        core::cmp::Ordering::Greater => {
            proof {
                let (tx, ty) = (abs_int(t.vsize(Axis::X)), abs_int(t.vsize(Axis::Y)));
                let (sx, sy) = (abs_int(s.vsize(Axis::X)), abs_int(s.vsize(Axis::Y)));
                assert(ty * sx == sx * ty && sy * tx == tx * sy) by (nonlinear_arith);
            }
            // Shrink vertically to match the aspect ratio.
            shrink_to_match(s, t, Axis::Y);
        },
        core::cmp::Ordering::Less => {
            // Shrink horizontally to match the aspect ratio.
            shrink_to_match(s, t, Axis::X);
        },
        core::cmp::Ordering::Equal => {},
    }
}

/// The source area of `setup_of`, for a normalized `part` and a target that
/// is not flat.
fn find_source_area(info: &ServerInfo, config: &Config, target: &Rect<i64>, part: &Rect<i64>) -> (r:
    Rect<i64>)
    requires
        *target == widen(config.target),
        *part == widen(config.source),
        config.source_normalized(),
        target.flat_free(),
    ensures
        r == source_area(*info, *config),
        within(r, 0x8000_0000_0000),
{
    // Start off with the entire device screen.
    let res = info.server_screen_res;
    let mut source = Rect {
        min: Pair::new(0i64, 0i64),
        max: Pair::new(res.get(Axis::X) as i64, res.get(Axis::Y) as i64),
    };
    proof {
        assert(source.min.0 =~= device_area(res).min.0);
        assert(source.max.0 =~= device_area(res).max.0);
    }
    // Correct a rotated device.
    if config.correct_device_orientation {
        if source.aspect() != target.aspect() {
            source.rotate_negative();
        }
    }
    // Carve out the configured part of the screen.
    let mut source = carve_area(&source, part);
    // Correct an orientation that still differs from the target's.
    if config.correct_orientation {
        if source.aspect() != target.aspect() {
            source.rotate_negative();
        }
    }
    // Shrink an axis to keep the aspect ratio.
    if config.keep_aspect_ratio {
        fit_aspect_area(&mut source, target);
    }
    source
}

/// The mapping of `setup_mapping`, from the final source area and the target.
fn mapping_between(source: &Rect<i64>, target: &Rect<i64>) -> (m: Mapping)
    requires
        within(*source, 0x8000_0000_0000),
        within(*target, 0x8000_0000),
        source.flat_free(),
    ensures
        m == subpixel_scale().chained(source.normalizer_of()).chained(target.denormalizer_of()),
        coeffs_within(
            m,
            0x1_0000_0000_0000_0000,
            0x10_0000_0000_0000_0000_0000_0000,
            0x10_0000_0000_0000_0000_0000_0000,
        ),
{
    let scale = Mapping {
        multiplier: Pair::new(NORMALIZED_ONE as i128, NORMALIZED_ONE as i128),
        offset: Pair::new(0, 0),
        divisor: Pair::new(1, 1),
        swap: false,
    };
    let normalizer = source.normalizer();
    let denormalizer = target.denormalizer();
    proof {
        assert(scale == subpixel_scale()) by {
            assert(scale.multiplier.0 =~= subpixel_scale().multiplier.0);
            assert(scale.offset.0 =~= subpixel_scale().offset.0);
            assert(scale.divisor.0 =~= subpixel_scale().divisor.0);
        }
        let m = 0x1_0000_0000_0000;
        assert(coeffs_within(normalizer, 1, 0x8000_0000_0000, m));
        lemma_chain_bounds(scale, normalizer, 10000, 0, 1, 1, 0x8000_0000_0000, m);
        assert(coeffs_within(denormalizer, 0x1_0000_0000, 0x8000_0000, 1));
        lemma_chain_bounds(
            scale.chained(normalizer),
            denormalizer,
            10000,
            0x8000_0000_0000,
            m,
            0x1_0000_0000,
            0x8000_0000,
            1,
        );
    }
    scale.chain(&normalizer).chain(&denormalizer)
}

/// A bound of an accept range, or `d` where the bound is missing.
fn bound_or_exec(b: Option<i64>, d: i64) -> (r: i64)
    ensures
        r == bound_or(b, d),
{
    match b {
        Some(v) => v,
        None => d,
    }
}

impl Setup {
    /// Resolves the device's screen geometry against the configuration into
    /// one mapping and the accept ranges. `None` where the configured source
    /// area leaves the device screen, or where the target or the resulting
    /// source area is flat on an axis, so that nothing could be mapped.
    pub fn new(info: &ServerInfo, config: &Config) -> (r: Option<Setup>)
        ensures
            r is Some <==> buildable(*info, *config),
            r is Some ==> r->0 == setup_of(*info, *config) && r->0.wf(),
    {
        let target = config.target.cast();
        let part = config.source.cast();
        let normalized = 0 <= part.min.get(Axis::X) && part.min.get(Axis::X) <= NORMALIZED_ONE
            && 0 <= part.min.get(Axis::Y) && part.min.get(Axis::Y) <= NORMALIZED_ONE && 0
            <= part.max.get(Axis::X) && part.max.get(Axis::X) <= NORMALIZED_ONE && 0
            <= part.max.get(Axis::Y) && part.max.get(Axis::Y) <= NORMALIZED_ONE;
        if !normalized {
            return None;
        }
        if target.min.get(Axis::X) == target.max.get(Axis::X) || target.min.get(Axis::Y)
            == target.max.get(Axis::Y) {
            return None;
        }
        proof {
            assert(target == widen(config.target)) by {
                assert(target.min.0 =~= widen(config.target).min.0);
                assert(target.max.0 =~= widen(config.target).max.0);
            }
            assert(part == widen(config.source)) by {
                assert(part.min.0 =~= widen(config.source).min.0);
                assert(part.max.0 =~= widen(config.source).max.0);
            }
        }
        let source = find_source_area(info, config, &target, &part);
        if source.min.get(Axis::X) == source.max.get(Axis::X) || source.min.get(Axis::Y)
            == source.max.get(Axis::Y) {
            return None;
        }
        let mapping = mapping_between(&source, &target);
        let pressure = [
            bound_or_exec(config.pressure_range[0], i64::MIN),
            bound_or_exec(config.pressure_range[1], i64::MAX),
        ];
        let size = [
            bound_or_exec(config.size_range[0], i64::MIN),
            bound_or_exec(config.size_range[1], i64::MAX),
        ];
        Some(Setup { mapping, clip: config.clip, pressure, size })
    }

    /// Resolves the device's screen geometry against the configuration into
    /// one mapping and the accept ranges. `None` where the configured source
    /// area leaves the device screen, or where the target or the resulting
    /// source area is flat on an axis, so that nothing could be mapped.
    /// The cursor position for a touch: `None` where its pressure or size lies
    /// outside the accept ranges; otherwise its position mapped, rounded down,
    /// and clamped into `clip` on each axis.
    pub fn consume(&self, ev: MouseMove) -> (r: Option<Pair<i32>>)
        requires
            self.wf(),
        ensures
            r == (if self.accepts(ev) {
                Some(self.cursor_for(ev))
            } else {
                None
            }),
    {
        if ev.pressure < self.pressure[0] || ev.pressure > self.pressure[1] {
            return None;
        }
        if ev.size < self.size[0] || ev.size > self.size[1] {
            return None;
        }
        let p = Pair::new(ev.pos.get(Axis::X) as i64, ev.pos.get(Axis::Y) as i64);
        proof {
            assert forall|a: Axis| #[trigger] self.mapping.applicable_axis(p, 1, a) by {
                lemma_mul_abs_le(
                    self.mapping.input_at(p, a),
                    self.mapping.multiplier.at(a) as int,
                    0x8000_0000,
                    0x1_0000_0000_0000_0000,
                );
            }
        }
        let pos = self.mapping.apply(p);
        let x = clamp_to(pos.get(Axis::X), self.clip.min.get(Axis::X), self.clip.max.get(Axis::X));
        let y = clamp_to(pos.get(Axis::Y), self.clip.min.get(Axis::Y), self.clip.max.get(Axis::Y));
        Some(Pair::new(x, y))
    }

    /// The mapping's coefficients are small enough to map any device position.
    pub open spec fn wf(self) -> bool {
        coeffs_within(
            self.mapping,
            0x1_0000_0000_0000_0000,
            0x10_0000_0000_0000_0000_0000_0000,
            0x10_0000_0000_0000_0000_0000_0000,
        )
    }

    /// The event lies inside both accept ranges.
    pub open spec fn accepts(self, ev: MouseMove) -> bool {
        &&& self.pressure[0] <= ev.pressure <= self.pressure[1]
        &&& self.size[0] <= ev.size <= self.size[1]
    }

    /// The device position mapped, rounded down, on output axis `a`.
    pub open spec fn mapped(self, pos: Pair<i32>, a: Axis) -> int {
        let p = Pair([pos.at(Axis::X) as i64, pos.at(Axis::Y) as i64]);
        self.mapping.image_num(p, 1, a) / (self.mapping.divisor.at(a) as int)
    }

    /// The cursor position for an accepted event: mapped, then clamped into
    /// `clip` on each axis.
    pub open spec fn cursor_for(self, ev: MouseMove) -> Pair<i32> {
        Pair(
            [
                clamp(
                    self.mapped(ev.pos, Axis::X),
                    self.clip.min.at(Axis::X) as int,
                    self.clip.max.at(Axis::X) as int,
                ) as i32,
                clamp(
                    self.mapped(ev.pos, Axis::Y),
                    self.clip.min.at(Axis::Y) as int,
                    self.clip.max.at(Axis::Y) as int,
                ) as i32,
            ],
        )
    }
}


/// Shrinking virtual axis `axis` of `s` to `shrink_target`: the extent on the
/// stored axis that holds it ends within one unit of the exact extent
/// `|t[axis]| * |s[other]| / |t[other]|`, the sum `min + max` there is kept,
/// and the other stored axis is untouched.
proof fn lemma_shrink_fits(s: Rect<i64>, t: Rect<i64>, axis: Axis)
    requires
        s.bounded(),
        t.vsize(Axis::X) != 0,
        t.vsize(Axis::Y) != 0,
        abs_int(t.vsize(axis)) * abs_int(s.vsize(axis.spec_swap())) < abs_int(s.vsize(axis))
            * abs_int(t.vsize(axis.spec_swap())),
    ensures
        ({
            let f = s.resized(axis, shrink_target(s, t, axis));
            let raw = s.raw_axis(axis);
            let e = abs_int(f.max.at(raw) - f.min.at(raw));
            let exact = abs_int(t.vsize(axis)) * abs_int(s.vsize(axis.spec_swap()));
            let unit = abs_int(t.vsize(axis.spec_swap()));
            &&& f.min.at(raw) + f.max.at(raw) == s.min.at(raw) + s.max.at(raw)
            &&& f.min.at(raw.spec_swap()) == s.min.at(raw.spec_swap())
            &&& f.max.at(raw.spec_swap()) == s.max.at(raw.spec_swap())
            &&& exact - unit < e * unit <= exact + unit
        }),
{
    let a = abs_int(t.vsize(axis));
    let b = abs_int(s.vsize(axis.spec_swap()));
    let c = abs_int(t.vsize(axis.spec_swap()));
    let n = shrink_target(s, t, axis);
    assert(a * b < c * abs_int(s.vsize(axis))) by (nonlinear_arith)
        requires
            a * b < abs_int(s.vsize(axis)) * c,
    ;
    assert(0 <= a * b) by (nonlinear_arith)
        requires
            0 <= a,
            0 <= b,
    ;
    lemma_div_below(a * b, c, abs_int(s.vsize(axis)));
    lemma_shrink_centered(s, axis, n);
    vstd::arithmetic::div_mod::lemma_fundamental_div_mod(a * b, c);
    let raw = s.raw_axis(axis);
    let f = s.resized(axis, n);
    let e = abs_int(f.max.at(raw) - f.min.at(raw));
    assert(a * b - c < e * c <= a * b + c) by (nonlinear_arith)
        requires
            a * b == c * n + (a * b) % c,
            0 <= (a * b) % c < c,
            e == n || e == n + 1,
    ;
}

/// With the aspect ratio kept, the source area ends centered where it was on
/// the axis that was shrunk, with its other axis untouched, and its aspect
/// ratio matches the target's up to rounding: the shrunk extent lies within
/// one unit of the extent that would make the two ratios equal. Where the
/// ratios were already equal the area is left as it is.
pub proof fn lemma_fit_aspect_matches(s: Rect<i64>, t: Rect<i64>)
    requires
        s.bounded(),
        t.flat_free(),
    ensures
        ({
            let f = fit_aspect(s, t, true);
            let (tx, ty) = (abs_int(t.vsize(Axis::X)), abs_int(t.vsize(Axis::Y)));
            let (sx, sy) = (abs_int(s.vsize(Axis::X)), abs_int(s.vsize(Axis::Y)));
            let ry = s.raw_axis(Axis::Y);
            let rx = s.raw_axis(Axis::X);
            &&& tx * sy == sx * ty ==> f == s
            &&& tx * sy > sx * ty ==> {
                let e = abs_int(f.max.at(ry) - f.min.at(ry));
                &&& f.min.at(ry) + f.max.at(ry) == s.min.at(ry) + s.max.at(ry)
                &&& f.min.at(rx) == s.min.at(rx) && f.max.at(rx) == s.max.at(rx)
                &&& ty * sx - tx < e * tx <= ty * sx + tx
            }
            &&& tx * sy < sx * ty ==> {
                let e = abs_int(f.max.at(rx) - f.min.at(rx));
                &&& f.min.at(rx) + f.max.at(rx) == s.min.at(rx) + s.max.at(rx)
                &&& f.min.at(ry) == s.min.at(ry) && f.max.at(ry) == s.max.at(ry)
                &&& tx * sy - ty < e * ty <= tx * sy + ty
            }
        }),
{
    let (tx, ty) = (abs_int(t.vsize(Axis::X)), abs_int(t.vsize(Axis::Y)));
    let (sx, sy) = (abs_int(s.vsize(Axis::X)), abs_int(s.vsize(Axis::Y)));
    assert(t.vsize(Axis::X) != 0 && t.vsize(Axis::Y) != 0);
    assert(ty * sx == sx * ty && sy * tx == tx * sy) by (nonlinear_arith);
    if tx * sy > sx * ty {
        lemma_shrink_fits(s, t, Axis::Y);
    } else if tx * sy < sx * ty {
        lemma_shrink_fits(s, t, Axis::X);
    }
}

/// Clipping puts every mapped point inside `clip` (where `clip` runs forwards
/// on both axes), and leaves a point already inside it where it is.
pub proof fn lemma_cursor_clipped(setup: Setup, ev: MouseMove, a: Axis)
    requires
        setup.clip.min.at(a) <= setup.clip.max.at(a),
    ensures
        ({
            let c = setup.cursor_for(ev).at(a);
            let m = setup.mapped(ev.pos, a);
            let (lo, hi) = (setup.clip.min.at(a), setup.clip.max.at(a));
            &&& lo <= c <= hi
            &&& (lo <= m <= hi ==> c == m)
        }),
{
}

} // verus!
