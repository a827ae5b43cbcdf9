//! Transfer rates: how a rate in bytes per second is shown, and how the rates
//! sampled during a transfer are smoothed over a sliding window.

use vstd::prelude::*;
use std::collections::VecDeque;
use vstd::string::StringExecFns;
use vstd::arithmetic::div_mod::{lemma_div_nonincreasing, lemma_mod_bound};
use crate::text::{decimal_string, digit_char, spec_decimal, spec_digit_char};

verus! {

/// Bytes in a kilobyte, as rates are shown.
pub const KB: u64 = 1024;

/// Bytes in a megabyte.
pub const MB: u64 = 1_048_576;

/// Bytes in a gigabyte.
pub const GB: u64 = 1_073_741_824;

/// Bytes in a terabyte.
pub const TB: u64 = 1_099_511_627_776;

/// `n / step` rounded to the nearest whole number; where `n` lies exactly
/// between two, the even one is taken.
pub open spec fn spec_round_half_even(n: nat, step: nat) -> nat
    recommends
        step > 0,
{
    let q = n / step;
    let r = n % step;
    if 2 * r > step || (2 * r == step && q % 2 == 1) {
        q + 1
    } else {
        q
    }
}

/// The distance between neighbouring double-precision numbers around `n`, for
/// `n` below 2^64: doubles carry 53 significant bits.
pub open spec fn spec_double_spacing(n: nat) -> nat {
    if n < 0x20_0000_0000_0000 {
        1
    } else if n < 0x40_0000_0000_0000 {
        2
    } else if n < 0x80_0000_0000_0000 {
        4
    } else if n < 0x100_0000_0000_0000 {
        8
    } else if n < 0x200_0000_0000_0000 {
        16
    } else if n < 0x400_0000_0000_0000 {
        32
    } else if n < 0x800_0000_0000_0000 {
        64
    } else if n < 0x1000_0000_0000_0000 {
        128
    } else if n < 0x2000_0000_0000_0000 {
        256
    } else if n < 0x4000_0000_0000_0000 {
        512
    } else if n < 0x8000_0000_0000_0000 {
        1024
    } else {
        2048
    }
}

/// The double-precision number nearest to `n`, ties to the even significand:
/// what `n as f64` is.
pub open spec fn spec_nearest_double(n: nat) -> nat {
    spec_round_half_even(n, spec_double_spacing(n)) * spec_double_spacing(n)
}

/// The unit in which a rate of `bytes` per second is shown, in bytes: the
/// largest of KB, MB, GB, TB that is not above the rate.
pub open spec fn spec_unit(bytes: nat) -> nat {
    if bytes < MB {
        KB as nat
    } else if bytes < GB {
        MB as nat
    } else if bytes < TB {
        GB as nat
    } else {
        TB as nat
    }
}

/// What follows the figure: a space, the unit's name, `/s`.
pub open spec fn spec_unit_suffix(bytes: nat) -> Seq<char> {
    if bytes < KB {
        " B/s"@
    } else if bytes < MB {
        " KB/s"@
    } else if bytes < GB {
        " MB/s"@
    } else if bytes < TB {
        " GB/s"@
    } else {
        " TB/s"@
    }
}

/// The rate in hundredths of its unit, as double-precision arithmetic and
/// rounding to two decimals give it: the rate is taken as a double, divided by
/// the unit (exact, the unit being a power of two) and rounded half to even.
pub open spec fn spec_hundredths(bytes: nat) -> nat {
    spec_round_half_even(spec_nearest_double(bytes) * 100, spec_unit(bytes))
}

/// A count of hundredths as a numeral with two decimals.
pub open spec fn spec_two_decimals(hundredths: nat) -> Seq<char> {
    spec_decimal(hundredths / 100) + seq![
        '.',
        spec_digit_char(hundredths / 10 % 10),
        spec_digit_char(hundredths % 10),
    ]
}

/// How a rate of `bytes` per second is shown: below a kilobyte the whole
/// number and `B/s`; from there on two decimals of the largest fitting unit,
/// as in `1.50 KB/s`. It is the text that
/// `format!("{:.2} KB/s", bytes as f64 / 1024.0)` and its like print.
pub open spec fn spec_rate_text(bytes: nat) -> Seq<char> {
    if bytes < KB {
        spec_decimal(bytes) + spec_unit_suffix(bytes)
    } else {
        spec_two_decimals(spec_hundredths(bytes)) + spec_unit_suffix(bytes)
    }
}

fn round_half_even(n: u128, step: u128) -> (q: u128)
    requires
        step > 0,
        n < 0x1_0000_0000_0000_0000_0000,
        step <= 0x1_0000_0000_0000_0000,
    ensures
        q == spec_round_half_even(n as nat, step as nat),
        q <= n + 1,
{
    let whole: u128 = n / step;
    let rest: u128 = n % step;
    proof {
        lemma_div_nonincreasing(n as int, step as int);
        lemma_mod_bound(n as int, step as int);
    }
    if 2 * rest > step || (2 * rest == step && whole % 2 == 1) {
        whole + 1
    } else {
        whole
    }
}

fn double_spacing(n: u64) -> (spacing: u64)
    ensures
        spacing == spec_double_spacing(n as nat),
        1 <= spacing <= 2048,
{
    if n < 0x20_0000_0000_0000 {
        1
    } else if n < 0x40_0000_0000_0000 {
        2
    } else if n < 0x80_0000_0000_0000 {
        4
    } else if n < 0x100_0000_0000_0000 {
        8
    } else if n < 0x200_0000_0000_0000 {
        16
    } else if n < 0x400_0000_0000_0000 {
        32
    } else if n < 0x800_0000_0000_0000 {
        64
    } else if n < 0x1000_0000_0000_0000 {
        128
    } else if n < 0x2000_0000_0000_0000 {
        256
    } else if n < 0x4000_0000_0000_0000 {
        512
    } else if n < 0x8000_0000_0000_0000 {
        1024
    } else {
        2048
    }
}

fn nearest_double(n: u64) -> (d: u128)
    ensures
        d == spec_nearest_double(n as nat),
        d <= 0x1_0000_0000_0000_0000,
{
    let spacing: u64 = double_spacing(n);
    let steps: u128 = round_half_even(n as u128, spacing as u128);
    proof {
        lemma_steps_bound(n as nat, spacing as nat);
    }
    let d: u128 = steps * (spacing as u128);
    d
}

proof fn lemma_steps_bound(n: nat, spacing: nat)
    requires
        n < 0x1_0000_0000_0000_0000,
        spacing == spec_double_spacing(n),
    ensures
        spec_round_half_even(n, spacing) * spacing <= 0x1_0000_0000_0000_0000,
{
    let q = n / spacing;
    let r = n % spacing;
    assert(n == q * spacing + r && 0 <= r < spacing) by (nonlinear_arith)
        requires
            q == n / spacing,
            r == n % spacing,
            spacing > 0,
    ;
    assert((q + 1) * spacing == q * spacing + spacing) by (nonlinear_arith);
    // Rounded up, the result is the next multiple of the spacing, and 2^64 is one.
    assert(0x1_0000_0000_0000_0000int % (spacing as int) == 0);
    if spec_round_half_even(n, spacing) == q + 1 {
        let top = 0x1_0000_0000_0000_0000int / (spacing as int);
        assert(top * spacing == 0x1_0000_0000_0000_0000int);
        assert(q < top) by (nonlinear_arith)
            requires
                q * spacing + r < top * spacing,
                0 <= r,
                spacing > 0,
        ;
        assert((q + 1) * spacing <= top * spacing) by (nonlinear_arith)
            requires
                q + 1 <= top,
                spacing > 0,
        ;
    }
}

/// Shows a rate in bytes per second the way a person reads it.
pub fn format_bytes_per_second(bytes: u64) -> (text: String)
    ensures
        text@ == spec_rate_text(bytes as nat),
{
    if bytes < KB {
        let mut text = decimal_string(bytes);
        text.append(" B/s");
        return text;
    }
    let unit: u64 = if bytes < MB {
        KB
    } else if bytes < GB {
        MB
    } else if bytes < TB {
        GB
    } else {
        TB
    };
    let as_double: u128 = nearest_double(bytes);
    let hundredths: u128 = round_half_even(as_double * 100, unit as u128);
    assert(hundredths <= u64::MAX) by {
        lemma_hundredths_bound(as_double as nat, unit as nat);
    }
    let whole: u64 = (hundredths / 100) as u64;
    let tenths: u8 = (hundredths / 10 % 10) as u8;
    let last: u8 = (hundredths % 10) as u8;
    let mut text = decimal_string(whole);
    text.push('.');
    text.push(digit_char(tenths));
    text.push(digit_char(last));
    proof {
        assert(text@ =~= spec_two_decimals(hundredths as nat));
    }
    if bytes < MB {
        text.append(" KB/s");
    } else if bytes < GB {
        text.append(" MB/s");
    } else if bytes < TB {
        text.append(" GB/s");
    } else {
        text.append(" TB/s");
    }
    text
}

proof fn lemma_hundredths_bound(d: nat, unit: nat)
    requires
        d <= 0x1_0000_0000_0000_0000,
        unit >= 1024,
    ensures
        spec_round_half_even(d * 100, unit) <= 0x2000_0000_0000_0000,
{
    let n = d * 100;
    lemma_div_nonincreasing(n as int, unit as int);
    assert(n / unit <= n / 1024) by {
        vstd::arithmetic::div_mod::lemma_div_is_ordered_by_denominator(n as int, 1024, unit as int);
    }
}

/// How many samples the smoothing window holds.
pub const WINDOW_SIZE: usize = 10;

/// A rate is sampled once more than this many nanoseconds have gone by since
/// the last sample: a tenth of a second.
pub const SAMPLE_INTERVAL_NANOS: u64 = 100_000_000;

/// The smaller of `a` and the largest `u64`.
pub open spec fn spec_clamp(a: nat) -> u64 {
    if a > u64::MAX {
        u64::MAX
    } else {
        a as u64
    }
}

/// The rate at which `bytes` were moved in `nanos` nanoseconds, in whole bytes
/// per second.
pub open spec fn spec_rate(bytes: nat, nanos: nat) -> u64
    recommends
        nanos > 0,
{
    spec_clamp(bytes * 1_000_000_000 / nanos)
}

/// The window after `sample` has come in: the newest sample stands last, and
/// the oldest leaves once the window is full.
pub open spec fn spec_slide(window: Seq<u64>, sample: u64) -> Seq<u64> {
    if window.len() >= WINDOW_SIZE {
        window.drop_first().push(sample)
    } else {
        window.push(sample)
    }
}

/// The sum of the samples.
pub open spec fn spec_sum(samples: Seq<u64>) -> nat
    decreases samples.len(),
{
    if samples.len() == 0 {
        0
    } else {
        spec_sum(samples.drop_last()) + samples.last() as nat
    }
}

/// The arithmetic mean of the samples, in whole bytes per second.
pub open spec fn spec_mean(samples: Seq<u64>) -> nat
    recommends
        samples.len() > 0,
{
    spec_sum(samples) / samples.len()
}

/// No sum of samples exceeds as many times the largest sample value.
pub proof fn lemma_sum_bound(samples: Seq<u64>)
    ensures
        spec_sum(samples) <= samples.len() * u64::MAX,
    decreases samples.len(),
{
    if samples.len() > 0 {
        lemma_sum_bound(samples.drop_last());
        assert(samples.len() * u64::MAX == samples.drop_last().len() * u64::MAX + u64::MAX)
            by (nonlinear_arith)
            requires
                samples.drop_last().len() == samples.len() - 1,
        ;
    }
}

/// The mean of `u64` samples is itself within `u64`.
pub proof fn lemma_mean_bound(samples: Seq<u64>)
    requires
        samples.len() > 0,
    ensures
        spec_mean(samples) <= u64::MAX,
{
    lemma_sum_bound(samples);
    let n = samples.len() as int;
    let total = spec_sum(samples) as int;
    vstd::arithmetic::div_mod::lemma_div_is_ordered(total, n * u64::MAX, n);
    vstd::arithmetic::div_mod::lemma_div_multiples_vanish(u64::MAX as int, n);
    assert(n * u64::MAX == u64::MAX * n) by (nonlinear_arith);
}

/// The smoothing of transfer rates: the bytes moved since the last sample and
/// a sliding window of the last samples.
pub struct ThroughputMeter {
    samples: VecDeque<u64>,
    pending: u64,
}

/// How one call of `record` takes a meter from `before` to `after`, and what
/// it hands back. Within the sampling interval the bytes are only counted.
/// Past it the rate since the last sample enters the window, the count starts
/// again from zero, and the mean of the window is handed back.
pub open spec fn spec_recorded(
    before: ThroughputMeter,
    bytes: u64,
    elapsed_nanos: u64,
    after: ThroughputMeter,
    smoothed: Option<u64>,
) -> bool {
    let moved = spec_clamp((before.pending() + bytes) as nat);
    if elapsed_nanos <= SAMPLE_INTERVAL_NANOS {
        &&& smoothed is None
        &&& after.window() == before.window()
        &&& after.pending() == moved
    } else {
        &&& after.window() == spec_slide(
            before.window(),
            spec_rate(moved as nat, elapsed_nanos as nat),
        )
        &&& after.pending() == 0
        &&& spec_mean(after.window()) <= u64::MAX
        &&& smoothed == Some(spec_mean(after.window()) as u64)
    }
}

impl ThroughputMeter {
    /// The samples in the window, oldest first.
    pub closed spec fn window(&self) -> Seq<u64> {
        self.samples@
    }

    /// The bytes moved since the last sample, held at the largest `u64` once
    /// they would pass it.
    pub closed spec fn pending(&self) -> u64 {
        self.pending
    }

    /// The meter's invariant: the window is never over its size.
    pub closed spec fn wf(&self) -> bool {
        self.samples@.len() <= WINDOW_SIZE
    }

    /// A meter that has seen nothing.
    pub fn new() -> (meter: ThroughputMeter)
        ensures
            meter.wf(),
            meter.window() == Seq::<u64>::empty(),
            meter.pending() == 0,
    {
        ThroughputMeter { samples: VecDeque::new(), pending: 0 }
    }

    /// Takes note that `bytes` more were moved and that `elapsed_nanos` have
    /// gone by since the last sample. Within the sampling interval the bytes
    /// are only counted. Past it a sample is taken: the rate since the last
    /// sample enters the window, the count starts again from zero, and the
    /// mean of the window is handed back for display; the caller then starts
    /// its clock again.
    pub fn record(&mut self, bytes: u64, elapsed_nanos: u64) -> (smoothed: Option<u64>)
        requires
            old(self).wf(),
        ensures
            final(self).wf(),
            spec_recorded(*old(self), bytes, elapsed_nanos, *final(self), smoothed),
    {
        let moved: u64 = self.pending.saturating_add(bytes);
        if elapsed_nanos <= SAMPLE_INTERVAL_NANOS {
            self.pending = moved;
            return None;
        }
        let scaled: u128 = (moved as u128) * 1_000_000_000u128 / (elapsed_nanos as u128);
        let sample: u64 = if scaled > u64::MAX as u128 {
            u64::MAX
        } else {
            scaled as u64
        };
        if self.samples.len() >= WINDOW_SIZE {
            let _ = self.samples.pop_front();
        }
        self.samples.push_back(sample);
        self.pending = 0;
        let mut total: u128 = 0;
        let mut i: usize = 0;
        while i < self.samples.len()
            invariant
                i <= self.samples@.len(),
                self.samples@.len() <= WINDOW_SIZE,
                total == spec_sum(self.samples@.take(i as int)),
                total <= i * u64::MAX,
            decreases self.samples@.len() - i,
        {
            proof {
                assert(self.samples@.take(i + 1).drop_last() =~= self.samples@.take(i as int));
                lemma_sum_bound(self.samples@.take(i + 1));
            }
            total = total + self.samples[i] as u128;
            i += 1;
        }
        proof {
            assert(self.samples@.take(self.samples@.len() as int) =~= self.samples@);
            lemma_mean_bound(self.samples@);
        }
        let mean: u128 = total / (self.samples.len() as u128);
        Some(mean as u64)
    }
}

} // verus!
