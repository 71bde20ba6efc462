//! Spectrum bar state: physics-based peak tracking with a precomputed
//! vertical colour gradient.
//!
//! Peaks snap upward with a fast attack blend and fall under gravity with
//! damped, accelerating motion, never below zero. The colour lookup table is
//! a pure function of the target pixel height, rebuilt only when that height
//! changes.

use vstd::prelude::*;

use crate::fixed::ONE;
use crate::renderer::Renderer;

verus! {

/// Per-update velocity increment while a bar is falling (Q16.16, ≈0.001).
pub const GRAVITY: u32 = 66;

/// Per-update velocity damping while falling (Q16.16, ≈0.98).
pub const DAMPING: u32 = 64225;

/// Attack weight of an incoming peak (Q16.16, ≈0.15).
pub const ATTACK: u32 = 9830;

/// Gradient colour at the top of a bar (0x8F4E8B).
pub const TOP_R: u32 = 0x8F;

pub const TOP_G: u32 = 0x4E;

pub const TOP_B: u32 = 0x8B;

/// Gradient colour at the bottom of a bar (0x453A62).
pub const BOT_R: u32 = 0x45;

pub const BOT_G: u32 = 0x3A;

pub const BOT_B: u32 = 0x62;

/// Fast-attack blend of a level toward a higher incoming value.
pub open spec fn attack_spec(level: int, value: int) -> int {
    (level * (ONE - ATTACK) + value * ATTACK) / (ONE as int)
}

/// One gravity step of the fall velocity: accelerate, then damp.
pub open spec fn vel_step_spec(vel: int) -> int {
    (vel + GRAVITY) * DAMPING / (ONE as int)
}

/// A falling level: the stepped velocity is subtracted, clamped at zero.
pub open spec fn fall_spec(level: int, stepped_vel: int) -> int {
    if level >= stepped_vel {
        level - stepped_vel
    } else {
        0
    }
}

/// One physics step of a single bar: a value above the level snaps it up
/// with the fast attack and rests the velocity; any other value lets the bar
/// fall under damped gravity. Returns `(level, velocity)`.
pub open spec fn bar_step(level: int, vel: int, value: int) -> (int, int) {
    if value > level {
        (attack_spec(level, value), 0)
    } else {
        let nv = vel_step_spec(vel);
        (fall_spec(level, nv), nv)
    }
}

/// The peak physics is monotone and bounded: a value above the current level
/// never drops the level (and never overshoots the value), a value at or
/// below it never raises it, and level and velocity stay within `[0, ONE]`.
pub proof fn lemma_bar_step_monotone(level: int, vel: int, value: int)
    requires
        0 <= level <= ONE,
        0 <= vel <= ONE,
        0 <= value <= ONE,
    ensures
        value > level ==> bar_step(level, vel, value).0 >= level,
        value > level ==> bar_step(level, vel, value).0 < value,
        value <= level ==> bar_step(level, vel, value).0 <= level,
        0 <= bar_step(level, vel, value).0 <= ONE,
        0 <= bar_step(level, vel, value).1 <= ONE,
{
    if value > level {
        let num = level * (ONE - ATTACK) + value * ATTACK;
        assert(0 <= level * (ONE - ATTACK) && 0 <= value * ATTACK && num <= (ONE as int) * (
        ONE as int) && level * (ONE as int) <= num && num < value * (ONE as int))
            by (nonlinear_arith)
            requires
                0 <= level <= ONE,
                0 <= value <= ONE,
                level < value,
                num == level * (ONE - ATTACK) + value * ATTACK,
        ;
        vstd::arithmetic::div_mod::lemma_div_is_ordered(num, 0x1_0000_0000, ONE as int);
        vstd::arithmetic::div_mod::lemma_div_is_ordered(level * (ONE as int), num, ONE as int);
        vstd::arithmetic::div_mod::lemma_div_by_multiple(level, ONE as int);
        vstd::arithmetic::mul::lemma_mul_is_commutative(level, ONE as int);
        vstd::arithmetic::div_mod::lemma_div_pos_is_pos(num, ONE as int);
        vstd::arithmetic::div_mod::lemma_multiply_divide_lt(num, ONE as int, value);
        assert((ONE as int) * value == value * (ONE as int)) by {
            vstd::arithmetic::mul::lemma_mul_is_commutative(ONE as int, value);
        }
        assert(0x1_0000_0000int / (ONE as int) == ONE);
    } else {
        let prod = (vel + GRAVITY) * DAMPING;
        assert(0 <= prod <= 0x1_0000_0000) by (nonlinear_arith)
            requires
                0 <= vel <= ONE,
                prod == (vel + GRAVITY) * DAMPING,
        ;
        vstd::arithmetic::div_mod::lemma_div_is_ordered(prod, 0x1_0000_0000, ONE as int);
        vstd::arithmetic::div_mod::lemma_div_pos_is_pos(prod, ONE as int);
        assert(0x1_0000_0000int / (ONE as int) == ONE);
    }
}

/// The bar state after a sequence of physics steps, one incoming value per
/// step.
pub open spec fn bar_trace(level: int, vel: int, values: Seq<int>) -> (int, int)
    decreases values.len(),
{
    if values.len() == 0 {
        (level, vel)
    } else {
        let s = bar_step(level, vel, values[0]);
        bar_trace(s.0, s.1, values.drop_first())
    }
}

/// A rising input never drops a bar: under a nondecreasing sequence of
/// values that starts above the level, every step raises the level (never
/// beyond the incoming values), so after any number of consecutive updates
/// the level is at least where it began and still within `[0, ONE]`.
pub proof fn lemma_rising_input_never_drops(level: int, vel: int, values: Seq<int>)
    requires
        0 <= level <= ONE,
        0 <= vel <= ONE,
        forall|k: int| 0 <= k < values.len() ==> 0 <= #[trigger] values[k] <= ONE,
        forall|k: int| 0 <= k < values.len() - 1 ==> #[trigger] values[k] <= values[k + 1],
        values.len() > 0 ==> values[0] > level,
    ensures
        bar_trace(level, vel, values).0 >= level,
        0 <= bar_trace(level, vel, values).0 <= ONE,
        0 <= bar_trace(level, vel, values).1 <= ONE,
    decreases values.len(),
{
    if values.len() > 0 {
        let s = bar_step(level, vel, values[0]);
        lemma_bar_step_monotone(level, vel, values[0]);
        let rest = values.drop_first();
        assert(forall|k: int| 0 <= k < rest.len() ==> #[trigger] rest[k] == values[k + 1]);
        lemma_rising_input_never_drops(s.0, s.1, rest);
    }
}

/// Once the input drops to zero, the levels fall monotonically and never go
/// negative: after any number of zero-valued updates the level is at most
/// where it was and still within `[0, ONE]`.
pub proof fn lemma_zero_input_never_raises(level: int, vel: int, values: Seq<int>)
    requires
        0 <= level <= ONE,
        0 <= vel <= ONE,
        forall|k: int| 0 <= k < values.len() ==> #[trigger] values[k] == 0,
    ensures
        bar_trace(level, vel, values).0 <= level,
        0 <= bar_trace(level, vel, values).0 <= ONE,
        0 <= bar_trace(level, vel, values).1 <= ONE,
    decreases values.len(),
{
    if values.len() > 0 {
        let s = bar_step(level, vel, values[0]);
        lemma_bar_step_monotone(level, vel, values[0]);
        let rest = values.drop_first();
        assert(forall|k: int| 0 <= k < rest.len() ==> #[trigger] rest[k] == values[k + 1]);
        lemma_zero_input_never_raises(s.0, s.1, rest);
    }
}

/// Colour of LUT entry `h` for a table of height `max_h`: linear
/// interpolation from the top colour (entry 0) to the bottom colour (entry
/// `max_h`), packed as 0x00RRGGBB.
pub open spec fn lut_colour(h: int, max_h: int) -> int {
    if max_h <= 0 {
        (TOP_R * 0x10000 + TOP_G * 0x100 + TOP_B) as int
    } else {
        let r = ((max_h - h) * TOP_R + h * BOT_R) / max_h;
        let g = ((max_h - h) * TOP_G + h * BOT_G) / max_h;
        let b = ((max_h - h) * TOP_B + h * BOT_B) / max_h;
        r * 0x10000 + g * 0x100 + b
    }
}

/// The full colour lookup table for a target height: `max_h + 1` entries.
pub open spec fn lut_spec(max_h: int) -> Seq<u32> {
    Seq::new((max_h + 1) as nat, |h: int| lut_colour(h, max_h) as u32)
}

/// The drawable bar height in pixels for a render: the window height above
/// the fixed 20-pixel baseline, capped at 200 (zero when nothing fits).
pub open spec fn render_max_height(window_height: int) -> int {
    if window_height > 20 {
        if window_height - 20 < 200 {
            window_height - 20
        } else {
            200
        }
    } else {
        0
    }
}

/// Left edge of the horizontally centred bar group (bars are 5 wide with 2
/// spacing).
pub open spec fn bars_start_x(width: int, bar_count: int) -> int {
    if width > bar_count * 7 {
        (width - bar_count * 7) / 2
    } else {
        0
    }
}

/// Pixel height of a bar at `level` under the drawable height `max_h`.
pub open spec fn bar_pixel_height(level: int, max_h: int) -> int {
    level * max_h / (ONE as int)
}

/// Column of pixel `dx` of bar `i`.
pub open spec fn bar_px(start_x: int, i: int, dx: int) -> int {
    start_x + 7 * i + dx
}

/// Row of segment `h` (counted from the bar top) of a bar of pixel height
/// `bph`, above the 20-pixel baseline.
pub open spec fn bar_py(window_height: int, bph: int, h: int) -> int {
    window_height - 20 - bph + h
}

/// The gradient colour of segment `h` of a bar under drawable height
/// `max_h`.
pub open spec fn bar_colour_at(lut: Seq<u32>, h: int, max_h: int) -> u32 {
    let raw = h * lut.len() / max_h;
    let idx = if raw < lut.len() - 1 {
        raw
    } else {
        lut.len() - 1
    };
    lut[idx]
}

/// `(px, py)` lies inside some bar's drawn rectangle: the 5-wide column of
/// bar `i`, rows `0 .. bar_pixel_height` above the baseline.
pub open spec fn in_some_bar(
    levels: Seq<u32>,
    bar_count: int,
    start_x: int,
    window_height: int,
    max_h: int,
    px: int,
    py: int,
) -> bool {
    exists|i: int, dx: int, h: int|
        #![trigger bar_px(start_x, i, dx), bar_py(window_height, bar_pixel_height(levels[i] as int, max_h), h)]
        0 <= i < bar_count && 0 <= dx < 5 && 0 <= h < bar_pixel_height(levels[i] as int, max_h)
            && px == bar_px(start_x, i, dx) && py == bar_py(
            window_height,
            bar_pixel_height(levels[i] as int, max_h),
            h,
        )
}

/// A bar's pixel height never exceeds the drawable height.
pub proof fn lemma_bar_pixel_height_bounds(level: int, max_h: int)
    requires
        0 <= level <= ONE,
        0 <= max_h,
    ensures
        0 <= bar_pixel_height(level, max_h) <= max_h,
{
    vstd::arithmetic::mul::lemma_mul_inequality(level, ONE as int, max_h);
    vstd::arithmetic::mul::lemma_mul_nonnegative(level, max_h);
    vstd::arithmetic::div_mod::lemma_div_is_ordered(
        level * max_h,
        (ONE as int) * max_h,
        ONE as int,
    );
    vstd::arithmetic::div_mod::lemma_div_by_multiple(max_h, ONE as int);
    vstd::arithmetic::mul::lemma_mul_is_commutative(max_h, ONE as int);
    vstd::arithmetic::div_mod::lemma_div_pos_is_pos(level * max_h, ONE as int);
}

/// Physics state of the spectrum bars plus the cached colour gradient.
pub struct SpectrumAnalyzer {
    bar_count: usize,
    peak_levels: Vec<u32>,
    peak_velocities: Vec<u32>,
    window_height: usize,
    colour_lut: Vec<u32>,
}

impl SpectrumAnalyzer {
    pub closed spec fn spec_bar_count(self) -> usize {
        self.bar_count
    }

    /// Current bar levels, each in `[0, ONE]`.
    pub closed spec fn view_levels(self) -> Seq<u32> {
        self.peak_levels@
    }

    /// Current fall velocities, each in `[0, ONE]`.
    pub closed spec fn view_velocities(self) -> Seq<u32> {
        self.peak_velocities@
    }

    pub closed spec fn spec_window_height(self) -> usize {
        self.window_height
    }

    /// The cached colour LUT (empty until the first update).
    pub closed spec fn view_lut(self) -> Seq<u32> {
        self.colour_lut@
    }

    pub open spec fn wf(self) -> bool {
        &&& self.view_levels().len() == self.spec_bar_count()
        &&& self.view_velocities().len() == self.spec_bar_count()
        &&& self.spec_bar_count() <= 512
        &&& forall|i: int|
            0 <= i < self.view_levels().len() ==> #[trigger] self.view_levels()[i] <= ONE
        &&& forall|i: int|
            0 <= i < self.view_velocities().len() ==> #[trigger] self.view_velocities()[i] <= ONE
        &&& self.spec_window_height() <= 65535
        &&& (self.view_lut().len() == 0 || self.view_lut() == lut_spec(
            self.spec_window_height() as int,
        ))
    }

    /// Fresh bars: all levels and velocities zero, no colour table yet.
    pub fn new(bar_count: usize) -> (r: Self)
        requires
            bar_count <= 512,
        ensures
            r.wf(),
            r.spec_bar_count() == bar_count,
            forall|i: int| 0 <= i < r.view_levels().len() ==> #[trigger] r.view_levels()[i] == 0,
            forall|i: int|
                0 <= i < r.view_velocities().len() ==> #[trigger] r.view_velocities()[i] == 0,
            r.view_lut().len() == 0,
            r.spec_window_height() == 0,
    {
        SpectrumAnalyzer {
            bar_count,
            peak_levels: vec![0u32; bar_count],
            peak_velocities: vec![0u32; bar_count],
            window_height: 0,
            colour_lut: Vec::new(),
        }
    }

    /// One physics step against an incoming spectrum, plus a colour-table
    /// rebuild whenever the target height changed (or no table exists yet).
    ///
    /// Per bar with an incoming value: a value above the current level snaps
    /// the level upward (never below its old value) and resets the velocity;
    /// any other value lets the bar fall by the damped, gravity-accelerated
    /// velocity, clamped at zero and never above its old value. Bars beyond
    /// the incoming spectrum keep their state.
    #[verifier::rlimit(60)]
    #[verifier::spinoff_prover]
    pub fn update(&mut self, spectrum: &Vec<u32>, max_height: usize)
        requires
            old(self).wf(),
            max_height <= 65535,
            forall|k: int| 0 <= k < spectrum@.len() ==> #[trigger] spectrum@[k] <= ONE,
        ensures
            final(self).wf(),
            final(self).spec_bar_count() == old(self).spec_bar_count(),
            final(self).spec_window_height() == max_height,
            final(self).view_lut() == lut_spec(max_height as int),
            final(self).view_levels().len() == old(self).view_levels().len(),
            final(self).view_velocities().len() == old(self).view_velocities().len(),
            forall|i: int|
                0 <= i < old(self).view_levels().len() && i < spectrum@.len()
                    ==> #[trigger] final(self).view_levels()[i] == bar_step(
                    old(self).view_levels()[i] as int,
                    old(self).view_velocities()[i] as int,
                    spectrum@[i] as int,
                ).0,
            forall|i: int|
                0 <= i < old(self).view_levels().len() && i < spectrum@.len()
                    ==> #[trigger] final(self).view_velocities()[i] == bar_step(
                    old(self).view_levels()[i] as int,
                    old(self).view_velocities()[i] as int,
                    spectrum@[i] as int,
                ).1,
            forall|i: int|
                spectrum@.len() <= i < old(self).view_levels().len()
                    ==> #[trigger] final(self).view_levels()[i] == old(self).view_levels()[i],
            forall|i: int|
                spectrum@.len() <= i < old(self).view_levels().len()
                    ==> #[trigger] final(self).view_velocities()[i] == old(
                    self,
                ).view_velocities()[i],
    {
        if max_height != self.window_height || self.colour_lut.len() == 0 {
            self.window_height = max_height;
            self.colour_lut.clear();
            let mut h: usize = 0;
            while h <= max_height
                invariant
                    self.bar_count == old(self).bar_count,
                    self.peak_levels@ == old(self).peak_levels@,
                    self.peak_velocities@ == old(self).peak_velocities@,
                    self.window_height == max_height,
                    max_height <= 65535,
                    h <= max_height + 1,
                    self.colour_lut@.len() == h,
                    forall|k: int|
                        0 <= k < h ==> #[trigger] self.colour_lut@[k] == lut_colour(
                            k,
                            max_height as int,
                        ),
                decreases max_height + 1 - h,
            {
                let colour: u32 = if max_height == 0 {
                    TOP_R * 0x10000 + TOP_G * 0x100 + TOP_B
                } else {
                    let hh = h as u32;
                    let mh = max_height as u32;
                    proof {
                        lemma_channel_bound(hh as int, mh as int, TOP_R as int, BOT_R as int);
                        lemma_channel_bound(hh as int, mh as int, TOP_G as int, BOT_G as int);
                        lemma_channel_bound(hh as int, mh as int, TOP_B as int, BOT_B as int);
                    }
                    let r = ((mh - hh) * TOP_R + hh * BOT_R) / mh;
                    let g = ((mh - hh) * TOP_G + hh * BOT_G) / mh;
                    let b = ((mh - hh) * TOP_B + hh * BOT_B) / mh;
                    r * 0x10000 + g * 0x100 + b
                };
                self.colour_lut.push(colour);
                h = h + 1;
            }
        }
        proof {
            assert(self.view_lut() =~= lut_spec(max_height as int));
        }
        let ghost mid = *self;
        let n = if spectrum.len() < self.bar_count {
            spectrum.len()
        } else {
            self.bar_count
        };
        let ghost pre_levels = self.peak_levels@;
        let ghost pre_vels = self.peak_velocities@;
        proof {
            assert forall|k: int| 0 <= k < pre_levels.len() implies #[trigger] pre_levels[k]
                <= ONE by {
                assert(self.view_levels()[k] <= ONE);
            }
            assert forall|k: int| 0 <= k < pre_vels.len() implies #[trigger] pre_vels[k] <= ONE by {
                assert(self.view_velocities()[k] <= ONE);
            }
        }
        let bar_count = self.bar_count;
        let mut i: usize = 0;
        while i < bar_count
            invariant
                self.wf(),
                self.bar_count == mid.bar_count,
                bar_count == mid.bar_count,
                self.window_height == mid.window_height,
                self.colour_lut@ == mid.colour_lut@,
                self.peak_levels@.len() == pre_levels.len(),
                self.peak_velocities@.len() == pre_vels.len(),
                forall|k: int|
                    i <= k < pre_levels.len() ==> #[trigger] self.peak_levels@[k] == pre_levels[k],
                forall|k: int|
                    i <= k < pre_vels.len() ==> #[trigger] self.peak_velocities@[k] == pre_vels[k],
                pre_levels.len() == self.spec_bar_count(),
                pre_vels.len() == self.spec_bar_count(),
                n <= spectrum@.len(),
                n <= self.spec_bar_count(),
                spectrum@.len() < self.spec_bar_count() ==> n == spectrum@.len(),
                spectrum@.len() >= self.spec_bar_count() ==> n == self.spec_bar_count(),
                i <= self.spec_bar_count(),
                forall|k: int| 0 <= k < pre_levels.len() ==> #[trigger] pre_levels[k] <= ONE,
                forall|k: int| 0 <= k < pre_vels.len() ==> #[trigger] pre_vels[k] <= ONE,
                forall|k: int| 0 <= k < spectrum@.len() ==> #[trigger] spectrum@[k] <= ONE,
                forall|k: int|
                    0 <= k < i && k < n ==> #[trigger] self.peak_levels@[k] == bar_step(
                        pre_levels[k] as int,
                        pre_vels[k] as int,
                        spectrum@[k] as int,
                    ).0,
                forall|k: int|
                    0 <= k < i && k < n ==> #[trigger] self.peak_velocities@[k] == bar_step(
                        pre_levels[k] as int,
                        pre_vels[k] as int,
                        spectrum@[k] as int,
                    ).1,
                forall|k: int| n <= k < i ==> #[trigger] self.peak_levels@[k] == pre_levels[k],
                forall|k: int| n <= k < i ==> #[trigger] self.peak_velocities@[k] == pre_vels[k],
                forall|k: int| 0 <= k < i ==> #[trigger] self.peak_levels@[k] <= ONE,
                forall|k: int| 0 <= k < i ==> #[trigger] self.peak_velocities@[k] <= ONE,
            decreases bar_count - i,
        {
            proof {
                assert(pre_levels[i as int] <= ONE);
                assert(pre_vels[i as int] <= ONE);
                assert(self.peak_levels@[i as int] == pre_levels[i as int]);
                assert(self.peak_velocities@[i as int] == pre_vels[i as int]);
            }
            let level = self.peak_levels[i];
            let vel = self.peak_velocities[i];
            if i < n {
                let value = spectrum[i];
                proof {
                    lemma_bar_step_monotone(level as int, vel as int, value as int);
                }
                if value > level {
                    proof {
                        assert(0 <= (level as int) * ((ONE - ATTACK) as int) && 0 <= (
                        value as int) * (ATTACK as int) && (level as int) * ((ONE - ATTACK) as int)
                            + (value as int) * (ATTACK as int) <= (ONE as int) * (
                        ONE as int)) by (nonlinear_arith)
                            requires
                                level <= ONE,
                                value <= ONE,
                        ;
                        vstd::arithmetic::div_mod::lemma_div_is_ordered(
                            (level as int) * ((ONE - ATTACK) as int) + (value as int) * (
                            ATTACK as int),
                            0x1_0000_0000,
                            ONE as int,
                        );
                        vstd::arithmetic::div_mod::lemma_div_pos_is_pos(
                            (level as int) * ((ONE - ATTACK) as int) + (value as int) * (
                            ATTACK as int),
                            ONE as int,
                        );
                    }
                    let num: u64 = (level as u64) * ((ONE - ATTACK) as u64) + (value as u64) * (
                    ATTACK as u64);
                    let nl: u32 = (num / 65536) as u32;
                    self.peak_levels[i] = nl;
                    self.peak_velocities[i] = 0;
                } else {
                    proof {
                        assert(0 <= ((vel + GRAVITY) as int) * (DAMPING as int) && ((
                        vel + GRAVITY) as int) * (DAMPING as int)
                            <= 0x1_0000_0000) by (nonlinear_arith)
                            requires
                                vel <= ONE,
                        ;
                        vstd::arithmetic::div_mod::lemma_div_is_ordered(
                            ((vel + GRAVITY) as int) * (DAMPING as int),
                            0x1_0000_0000,
                            ONE as int,
                        );
                        vstd::arithmetic::div_mod::lemma_div_pos_is_pos(
                            ((vel + GRAVITY) as int) * (DAMPING as int),
                            ONE as int,
                        );
                    }
                    let nv: u32 = (((vel + GRAVITY) as u64) * (DAMPING as u64) / 65536) as u32;
                    let nl: u32 = if level >= nv {
                        level - nv
                    } else {
                        0
                    };
                    self.peak_levels[i] = nl;
                    self.peak_velocities[i] = nv;
                }
            }
            i = i + 1;
        }
    }

    /// The cached colour table (one entry per pixel row, top to bottom).
    pub fn colour_lut(&self) -> (r: &Vec<u32>)
        ensures
            r@ == self.view_lut(),
    {
        &self.colour_lut
    }

    /// Current level of bar `i` in `[0, ONE]`.
    pub fn level(&self, i: usize) -> (r: u32)
        requires
            i < self.view_levels().len(),
        ensures
            r == self.view_levels()[i as int],
    {
        self.peak_levels[i]
    }

    /// Draws the bars as vertical runs of unit-height gradient segments,
    /// horizontally centred as a group above a fixed 20-pixel baseline,
    /// pixel-exact: each bar's in-bounds 5-wide column holds the gradient
    /// colour of its row, and every pixel outside the bar rectangles keeps
    /// its value.
    #[verifier::rlimit(100)]
    #[verifier::spinoff_prover]
    pub fn render(&self, renderer: &mut Renderer)
        requires
            self.wf(),
            old(renderer).wf(),
        ensures
            final(renderer).wf(),
            final(renderer).spec_width() == old(renderer).spec_width(),
            final(renderer).spec_height() == old(renderer).spec_height(),
            forall|j: int|
                #![trigger final(renderer).spec_buffer()[j]]
                0 <= j < final(renderer).spec_buffer().len() ==> final(renderer).spec_buffer()[j]
                    == old(renderer).spec_buffer()[j] || self.view_lut().contains(
                    final(renderer).spec_buffer()[j],
                ),
            (self.view_lut().len() > 0 && render_max_height(self.spec_window_height() as int) > 0)
                ==> forall|px: int, py: int|
                #![trigger crate::primitives::pix_idx(old(renderer).spec_width() as int, px, py)]
                (0 <= px < old(renderer).spec_width() && 0 <= py < old(renderer).spec_height())
                    ==> final(renderer).spec_buffer()[crate::primitives::pix_idx(
                    old(renderer).spec_width() as int,
                    px,
                    py,
                )] == old(renderer).spec_buffer()[crate::primitives::pix_idx(
                    old(renderer).spec_width() as int,
                    px,
                    py,
                )] || in_some_bar(
                    self.view_levels(),
                    self.spec_bar_count() as int,
                    bars_start_x(
                        old(renderer).spec_width() as int,
                        self.spec_bar_count() as int,
                    ),
                    self.spec_window_height() as int,
                    render_max_height(self.spec_window_height() as int),
                    px,
                    py,
                ),
            (self.view_lut().len() > 0 && render_max_height(self.spec_window_height() as int) > 0)
                ==> forall|i: int, dx: int, h: int|
                #![trigger bar_px(bars_start_x(old(renderer).spec_width() as int, self.spec_bar_count() as int), i, dx), bar_colour_at(self.view_lut(), h, render_max_height(self.spec_window_height() as int))]
                (0 <= i < self.spec_bar_count() && 0 <= dx < 5 && 0 <= h < bar_pixel_height(
                    self.view_levels()[i] as int,
                    render_max_height(self.spec_window_height() as int),
                ) && bar_px(
                    bars_start_x(
                        old(renderer).spec_width() as int,
                        self.spec_bar_count() as int,
                    ),
                    i,
                    dx,
                ) < old(renderer).spec_width() && bar_py(
                    self.spec_window_height() as int,
                    bar_pixel_height(
                        self.view_levels()[i] as int,
                        render_max_height(self.spec_window_height() as int),
                    ),
                    h,
                ) < old(renderer).spec_height()) ==> final(renderer).spec_buffer()[crate::primitives::pix_idx(
                    old(renderer).spec_width() as int,
                    bar_px(
                        bars_start_x(
                            old(renderer).spec_width() as int,
                            self.spec_bar_count() as int,
                        ),
                        i,
                        dx,
                    ),
                    bar_py(
                        self.spec_window_height() as int,
                        bar_pixel_height(
                            self.view_levels()[i] as int,
                            render_max_height(self.spec_window_height() as int),
                        ),
                        h,
                    ),
                )] == bar_colour_at(
                    self.view_lut(),
                    h,
                    render_max_height(self.spec_window_height() as int),
                ),
    {
        if self.colour_lut.len() == 0 {
            return ;
        }
        let ghost entry_buf = renderer.spec_buffer();
        let (width, _height) = renderer.dimensions();
        let bar_width: usize = 5;
        let spacing: usize = 2;
        let bottom_offset: usize = 20;
        let total_width = self.bar_count * 7;
        let start_x = if width > total_width {
            (width - total_width) / 2
        } else {
            0
        };
        let max_height = if self.window_height > bottom_offset {
            let avail = self.window_height - bottom_offset;
            if avail < 200 {
                avail
            } else {
                200
            }
        } else {
            0
        };
        proof {
            assert(max_height as int == render_max_height(self.spec_window_height() as int));
            assert(start_x as int == bars_start_x(width as int, self.spec_bar_count() as int));
        }
        if max_height == 0 {
            return ;
        }
        let mut i: usize = 0;
        while i < self.bar_count
            invariant
                self.wf(),
                old(renderer).wf(),
                renderer.wf(),
                renderer.spec_width() == old(renderer).spec_width(),
                renderer.spec_height() == old(renderer).spec_height(),
                width == renderer.spec_width(),
                i <= self.bar_count,
                start_x <= 65535,
                start_x as int == bars_start_x(width as int, self.spec_bar_count() as int),
                1 <= max_height <= 200,
                max_height as int == render_max_height(self.spec_window_height() as int),
                max_height + bottom_offset <= self.window_height,
                bottom_offset == 20,
                bar_width == 5,
                spacing == 2,
                self.view_lut().len() == self.window_height + 1,
                forall|j: int|
                    #![trigger renderer.spec_buffer()[j]]
                    0 <= j < renderer.spec_buffer().len() ==> renderer.spec_buffer()[j]
                        == entry_buf[j] || self.view_lut().contains(renderer.spec_buffer()[j]),
                forall|px: int, py: int|
                    #![trigger crate::primitives::pix_idx(width as int, px, py)]
                    (0 <= px < width && 0 <= py < renderer.spec_height()) ==> renderer.spec_buffer()[crate::primitives::pix_idx(
                        width as int,
                        px,
                        py,
                    )] == entry_buf[crate::primitives::pix_idx(width as int, px, py)]
                        || in_some_bar(
                        self.view_levels(),
                        i as int,
                        start_x as int,
                        self.spec_window_height() as int,
                        max_height as int,
                        px,
                        py,
                    ),
                forall|i2: int, dx: int, h: int|
                    #![trigger bar_px(start_x as int, i2, dx), bar_colour_at(self.view_lut(), h, max_height as int)]
                    (0 <= i2 < i && 0 <= dx < 5 && 0 <= h < bar_pixel_height(
                        self.view_levels()[i2] as int,
                        max_height as int,
                    ) && bar_px(start_x as int, i2, dx) < width && bar_py(
                        self.spec_window_height() as int,
                        bar_pixel_height(self.view_levels()[i2] as int, max_height as int),
                        h,
                    ) < renderer.spec_height()) ==> renderer.spec_buffer()[crate::primitives::pix_idx(
                        width as int,
                        bar_px(start_x as int, i2, dx),
                        bar_py(
                            self.spec_window_height() as int,
                            bar_pixel_height(self.view_levels()[i2] as int, max_height as int),
                            h,
                        ),
                    )] == bar_colour_at(self.view_lut(), h, max_height as int),
            decreases self.bar_count - i,
        {
            proof {
                let lv = self.peak_levels@[i as int] as int;
                let mh = max_height as int;
                vstd::arithmetic::mul::lemma_mul_inequality(lv, ONE as int, mh);
                vstd::arithmetic::div_mod::lemma_div_is_ordered(
                    lv * mh,
                    (ONE as int) * mh,
                    ONE as int,
                );
                vstd::arithmetic::div_mod::lemma_div_by_multiple(mh, ONE as int);
                vstd::arithmetic::mul::lemma_mul_is_commutative(mh, ONE as int);
                vstd::arithmetic::mul::lemma_mul_nonnegative(lv, mh);
                vstd::arithmetic::div_mod::lemma_div_pos_is_pos(lv * mh, ONE as int);
            }
            let height: usize = (((self.peak_levels[i] as u64) * (max_height as u64)
                / 65536) as u32) as usize;
            proof {
                assert(height as int == bar_pixel_height(
                    self.view_levels()[i as int] as int,
                    max_height as int,
                ));
            }
            if height > 0 {
                let x = start_x + i * 7;
                let y = self.window_height - bottom_offset - height;
                let mut h: usize = 0;
                while h < height
                    invariant
                        self.wf(),
                        old(renderer).wf(),
                        renderer.wf(),
                        renderer.spec_width() == old(renderer).spec_width(),
                        renderer.spec_height() == old(renderer).spec_height(),
                        width == renderer.spec_width(),
                        h <= height,
                        1 <= max_height <= 200,
                        max_height as int == render_max_height(self.spec_window_height() as int),
                        max_height + 20 <= self.window_height,
                        i < self.spec_bar_count(),
                        height as int == bar_pixel_height(
                            self.view_levels()[i as int] as int,
                            max_height as int,
                        ),
                        height <= max_height,
                        bar_width == 5,
                        start_x <= 65535,
                        start_x as int == bars_start_x(width as int, self.spec_bar_count() as int),
                        x == start_x + i * 7,
                        x <= 0x100000,
                        y + height + 20 == self.window_height,
                        y <= 65536,
                        self.view_lut().len() == self.window_height + 1,
                        forall|j: int|
                            #![trigger renderer.spec_buffer()[j]]
                            0 <= j < renderer.spec_buffer().len() ==> renderer.spec_buffer()[j]
                                == entry_buf[j] || self.view_lut().contains(
                                renderer.spec_buffer()[j],
                            ),
                        forall|px: int, py: int|
                            #![trigger crate::primitives::pix_idx(width as int, px, py)]
                            (0 <= px < width && 0 <= py < renderer.spec_height()) ==> renderer.spec_buffer()[crate::primitives::pix_idx(
                                width as int,
                                px,
                                py,
                            )] == entry_buf[crate::primitives::pix_idx(width as int, px, py)]
                                || in_some_bar(
                                self.view_levels(),
                                i as int,
                                start_x as int,
                                self.spec_window_height() as int,
                                max_height as int,
                                px,
                                py,
                            ) || crate::primitives::in_rect(
                                x as int,
                                y as int,
                                5,
                                h as int,
                                px,
                                py,
                            ),
                        forall|i2: int, dx: int, h2: int|
                            #![trigger bar_px(start_x as int, i2, dx), bar_colour_at(self.view_lut(), h2, max_height as int)]
                            (0 <= i2 < i && 0 <= dx < 5 && 0 <= h2 < bar_pixel_height(
                                self.view_levels()[i2] as int,
                                max_height as int,
                            ) && bar_px(start_x as int, i2, dx) < width && bar_py(
                                self.spec_window_height() as int,
                                bar_pixel_height(self.view_levels()[i2] as int, max_height as int),
                                h2,
                            ) < renderer.spec_height()) ==> renderer.spec_buffer()[crate::primitives::pix_idx(
                                width as int,
                                bar_px(start_x as int, i2, dx),
                                bar_py(
                                    self.spec_window_height() as int,
                                    bar_pixel_height(
                                        self.view_levels()[i2] as int,
                                        max_height as int,
                                    ),
                                    h2,
                                ),
                            )] == bar_colour_at(self.view_lut(), h2, max_height as int),
                        forall|dx: int, h2: int|
                            #![trigger bar_px(start_x as int, i as int, dx), bar_colour_at(self.view_lut(), h2, max_height as int)]
                            (0 <= dx < 5 && 0 <= h2 < h && bar_px(start_x as int, i as int, dx)
                                < width && bar_py(
                                self.spec_window_height() as int,
                                height as int,
                                h2,
                            ) < renderer.spec_height()) ==> renderer.spec_buffer()[crate::primitives::pix_idx(
                                width as int,
                                bar_px(start_x as int, i as int, dx),
                                bar_py(self.spec_window_height() as int, height as int, h2),
                            )] == bar_colour_at(self.view_lut(), h2, max_height as int),
                    decreases height - h,
                {
                    let lut_len = self.colour_lut.len();
                    proof {
                        assert(0 <= (h as int) * (lut_len as int) <= 200 * 65536) by (nonlinear_arith)
                            requires
                                h <= 200,
                                lut_len <= 65536,
                        ;
                    }
                    let raw_idx = h * lut_len / max_height;
                    let colour_idx = if raw_idx < lut_len - 1 {
                        raw_idx
                    } else {
                        lut_len - 1
                    };
                    let colour = self.colour_lut[colour_idx];
                    proof {
                        assert(self.view_lut().contains(colour)) by {
                            assert(self.view_lut()[colour_idx as int] == colour);
                        }
                        assert(colour == bar_colour_at(self.view_lut(), h as int, max_height as int));
                    }
                    let ghost pre_buf = renderer.spec_buffer();
                    proof {
                        assert forall|j: int|
                            #![trigger pre_buf[j]]
                            0 <= j < pre_buf.len() implies pre_buf[j] == entry_buf[j]
                            || self.view_lut().contains(pre_buf[j]) by {
                            assert(renderer.spec_buffer()[j] == entry_buf[j]
                                || self.view_lut().contains(renderer.spec_buffer()[j]));
                        }
                        assert forall|px: int, py: int|
                            #![trigger crate::primitives::pix_idx(width as int, px, py)]
                            (0 <= px < width && 0 <= py < renderer.spec_height()) implies pre_buf[crate::primitives::pix_idx(
                            width as int,
                            px,
                            py,
                        )] == entry_buf[crate::primitives::pix_idx(width as int, px, py)]
                            || in_some_bar(
                            self.view_levels(),
                            i as int,
                            start_x as int,
                            self.spec_window_height() as int,
                            max_height as int,
                            px,
                            py,
                        ) || crate::primitives::in_rect(
                            x as int,
                            y as int,
                            5,
                            h as int,
                            px,
                            py,
                        ) by {
                            crate::primitives::lemma_pix_in_bounds(
                                width as int,
                                renderer.spec_height() as int,
                                px,
                                py,
                            );
                        }
                        assert forall|i2: int, dx: int, h2: int|
                            #![trigger bar_px(start_x as int, i2, dx), bar_colour_at(self.view_lut(), h2, max_height as int)]
                            (0 <= i2 < i && 0 <= dx < 5 && 0 <= h2 < bar_pixel_height(
                                self.view_levels()[i2] as int,
                                max_height as int,
                            ) && bar_px(start_x as int, i2, dx) < width && bar_py(
                                self.spec_window_height() as int,
                                bar_pixel_height(self.view_levels()[i2] as int, max_height as int),
                                h2,
                            ) < renderer.spec_height()) implies pre_buf[crate::primitives::pix_idx(
                            width as int,
                            bar_px(start_x as int, i2, dx),
                            bar_py(
                                self.spec_window_height() as int,
                                bar_pixel_height(self.view_levels()[i2] as int, max_height as int),
                                h2,
                            ),
                        )] == bar_colour_at(self.view_lut(), h2, max_height as int) by {}
                        assert forall|dx: int, h2: int|
                            #![trigger bar_px(start_x as int, i as int, dx), bar_colour_at(self.view_lut(), h2, max_height as int)]
                            (0 <= dx < 5 && 0 <= h2 < h && bar_px(start_x as int, i as int, dx)
                                < width && bar_py(
                                self.spec_window_height() as int,
                                height as int,
                                h2,
                            ) < renderer.spec_height()) implies pre_buf[crate::primitives::pix_idx(
                            width as int,
                            bar_px(start_x as int, i as int, dx),
                            bar_py(self.spec_window_height() as int, height as int, h2),
                        )] == bar_colour_at(self.view_lut(), h2, max_height as int) by {}
                    }
                    renderer.draw_rect(x, y + h, bar_width, 1, colour);
                    proof {
                        assert forall|j: int|
                            #![trigger renderer.spec_buffer()[j]]
                            0 <= j < renderer.spec_buffer().len() implies renderer.spec_buffer()[j]
                            == entry_buf[j] || self.view_lut().contains(
                            renderer.spec_buffer()[j],
                        ) by {
                            assert(pre_buf[j] == entry_buf[j] || self.view_lut().contains(
                                pre_buf[j],
                            ));
                            assert(renderer.spec_buffer()[j] == pre_buf[j] || renderer
                                .spec_buffer()[j] == colour);
                            assert(self.view_lut().contains(colour));
                        }
                        assert forall|i2: int, dx: int, h2: int|
                            #![trigger bar_px(start_x as int, i2, dx), bar_colour_at(self.view_lut(), h2, max_height as int)]
                            (0 <= i2 < i && 0 <= dx < 5 && 0 <= h2 < bar_pixel_height(
                                self.view_levels()[i2] as int,
                                max_height as int,
                            ) && bar_px(start_x as int, i2, dx) < width && bar_py(
                                self.spec_window_height() as int,
                                bar_pixel_height(self.view_levels()[i2] as int, max_height as int),
                                h2,
                            ) < renderer.spec_height()) implies renderer.spec_buffer()[crate::primitives::pix_idx(
                            width as int,
                            bar_px(start_x as int, i2, dx),
                            bar_py(
                                self.spec_window_height() as int,
                                bar_pixel_height(self.view_levels()[i2] as int, max_height as int),
                                h2,
                            ),
                        )] == bar_colour_at(self.view_lut(), h2, max_height as int) by {
                            lemma_bar_pixel_height_bounds(
                                self.view_levels()[i2] as int,
                                max_height as int,
                            );
                            assert(bar_px(start_x as int, i2, dx) < x);
                        }
                        assert forall|dx: int, h2: int|
                            #![trigger bar_px(start_x as int, i as int, dx), bar_colour_at(self.view_lut(), h2, max_height as int)]
                            (0 <= dx < 5 && 0 <= h2 < h + 1 && bar_px(start_x as int, i as int, dx)
                                < width && bar_py(
                                self.spec_window_height() as int,
                                height as int,
                                h2,
                            ) < renderer.spec_height()) implies renderer.spec_buffer()[crate::primitives::pix_idx(
                            width as int,
                            bar_px(start_x as int, i as int, dx),
                            bar_py(self.spec_window_height() as int, height as int, h2),
                        )] == bar_colour_at(self.view_lut(), h2, max_height as int) by {
                            assert(bar_py(self.spec_window_height() as int, height as int, h2)
                                >= 0);
                            if h2 == h {
                                assert(crate::primitives::in_rect(
                                    x as int,
                                    y as int + h,
                                    5,
                                    1,
                                    bar_px(start_x as int, i as int, dx),
                                    bar_py(self.spec_window_height() as int, height as int, h2),
                                ));
                            }
                        }
                        assert forall|px: int, py: int|
                            #![trigger crate::primitives::pix_idx(width as int, px, py)]
                            (0 <= px < width && 0 <= py < renderer.spec_height()) implies renderer.spec_buffer()[crate::primitives::pix_idx(
                            width as int,
                            px,
                            py,
                        )] == entry_buf[crate::primitives::pix_idx(width as int, px, py)]
                            || in_some_bar(
                            self.view_levels(),
                            i as int,
                            start_x as int,
                            self.spec_window_height() as int,
                            max_height as int,
                            px,
                            py,
                        ) || crate::primitives::in_rect(
                            x as int,
                            y as int,
                            5,
                            (h + 1) as int,
                            px,
                            py,
                        ) by {
                            crate::primitives::lemma_pix_in_bounds(
                                width as int,
                                renderer.spec_height() as int,
                                px,
                                py,
                            );
                        }
                    }
                    h = h + 1;
                }
                proof {
                    assert forall|px: int, py: int|
                        #![trigger crate::primitives::pix_idx(width as int, px, py)]
                        (0 <= px < width && 0 <= py < renderer.spec_height()) implies renderer.spec_buffer()[crate::primitives::pix_idx(
                        width as int,
                        px,
                        py,
                    )] == entry_buf[crate::primitives::pix_idx(width as int, px, py)]
                        || in_some_bar(
                        self.view_levels(),
                        i as int + 1,
                        start_x as int,
                        self.spec_window_height() as int,
                        max_height as int,
                        px,
                        py,
                    ) by {
                        if crate::primitives::in_rect(x as int, y as int, 5, height as int, px, py) {
                            assert(px == bar_px(start_x as int, i as int, px - x));
                            assert(py == bar_py(
                                self.spec_window_height() as int,
                                bar_pixel_height(
                                    self.view_levels()[i as int] as int,
                                    max_height as int,
                                ),
                                py - y,
                            ));
                        }
                    }
                }
            } else {
                proof {
                    assert forall|px: int, py: int|
                        #![trigger crate::primitives::pix_idx(width as int, px, py)]
                        (0 <= px < width && 0 <= py < renderer.spec_height()) implies renderer.spec_buffer()[crate::primitives::pix_idx(
                        width as int,
                        px,
                        py,
                    )] == entry_buf[crate::primitives::pix_idx(width as int, px, py)]
                        || in_some_bar(
                        self.view_levels(),
                        i as int + 1,
                        start_x as int,
                        self.spec_window_height() as int,
                        max_height as int,
                        px,
                        py,
                    ) by {}
                }
            }
            i = i + 1;
        }
    }
}

/// A linear interpolation of two byte-sized channel values stays byte-sized.
proof fn lemma_channel_bound(t: int, m: int, a: int, b: int)
    requires
        1 <= m,
        0 <= t <= m,
        0 <= a <= 255,
        0 <= b <= 255,
    ensures
        0 <= ((m - t) * a + t * b) / m <= 255,
{
    assert(0 <= (m - t) * a + t * b <= m * 255) by (nonlinear_arith)
        requires
            1 <= m,
            0 <= t <= m,
            0 <= a <= 255,
            0 <= b <= 255,
    ;
    vstd::arithmetic::div_mod::lemma_div_is_ordered((m - t) * a + t * b, m * 255, m);
    assert(m * 255 / m == 255) by {
        vstd::arithmetic::div_mod::lemma_div_by_multiple(255, m);
        vstd::arithmetic::mul::lemma_mul_is_commutative(m, 255);
    }
    vstd::arithmetic::div_mod::lemma_div_pos_is_pos((m - t) * a + t * b, m);
}


} // verus!
