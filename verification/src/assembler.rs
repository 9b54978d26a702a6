//! The waveform assembly engine: a pure function from (pulse template,
//! sample rate, wave description) to an exact-length sample segment.
//!
//! The segment is built one pulse repetition at a time.  After repetition
//! `k` (1-based) the segment is padded with filler up to the cumulative step
//! target `min(target, round(sample_rate * k / frequency))`, where `target
//! = round(sample_rate * duration)` is the overall length.  Padding is
//! clamped at zero: when the template overruns its slot the segment is
//! allowed to exceed the step target, the template is never truncated, and
//! later repetitions continue from the actual length.  A repetition
//! frequency of zero is a required special case: the segment is exactly
//! `target` copies of the filler and no pulse is inserted.

use crate::error::EngineError;
use crate::rat::{ceil_div, ceil_div_u128, round_div, round_div_u128, Rat};
use crate::wave::{PulseTemplate, WaveDescription};
use vstd::math::min;
use vstd::prelude::*;

verus! {

/// The inputs generation accepts: a positive sample rate and a nonnegative
/// frequency and duration.  Anything else is refused with
/// `InvalidParameter`.
pub open spec fn params_ok(sample_rate_hz: Rat, frequency_hz: Rat, duration_sec: Rat) -> bool {
    sample_rate_hz.num >= 1 && frequency_hz.num >= 0 && duration_sec.num >= 0
}

/// The exact sample count the segment must have when complete:
/// `round(sample_rate * duration)`, half up.
pub open spec fn target_len(sample_rate_hz: Rat, duration_sec: Rat) -> int {
    round_div(sample_rate_hz.num * duration_sec.num, sample_rate_hz.den * duration_sec.den)
}

/// How many pulse repetitions cover the duration:
/// `ceil(frequency * duration)`.
pub open spec fn pulse_count(frequency_hz: Rat, duration_sec: Rat) -> int {
    ceil_div(frequency_hz.num * duration_sec.num, frequency_hz.den * duration_sec.den)
}

/// The cumulative sample count repetition `k` (1-based) aims at before
/// clamping: `round(period * sample_rate * k)` with `period = 1/frequency`,
/// that is `round(sample_rate * k / frequency)`.
pub open spec fn step_target_raw(sample_rate_hz: Rat, frequency_hz: Rat, k: int) -> int {
    round_div(
        sample_rate_hz.num * k * frequency_hz.den,
        sample_rate_hz.den * frequency_hz.num,
    )
}

/// The clamped cumulative target after repetition `k`: never past the
/// overall target, and zero before the first repetition.
pub open spec fn step_target(sample_rate_hz: Rat, frequency_hz: Rat, tlen: int, k: int) -> int {
    if k <= 0 {
        0
    } else {
        min(tlen, step_target_raw(sample_rate_hz, frequency_hz, k))
    }
}

/// `n` copies of `x` (empty when `n` is negative).
pub open spec fn repeated<T>(x: T, n: int) -> Seq<T> {
    Seq::new(
        if n >= 0 {
            n as nat
        } else {
            0nat
        },
        |i: int| x,
    )
}

/// The segment after the first `k` pulse repetitions: each repetition
/// appends the full template, then pads with filler up to its step target
/// if the segment is still short of it.
pub open spec fn assembled_prefix<T>(
    pulse: Seq<T>,
    filler: T,
    sample_rate_hz: Rat,
    frequency_hz: Rat,
    tlen: int,
    k: int,
) -> Seq<T>
    decreases k,
{
    if k <= 0 {
        Seq::empty()
    } else {
        let with_pulse = assembled_prefix(pulse, filler, sample_rate_hz, frequency_hz, tlen, k - 1)
            + pulse;
        let st = step_target(sample_rate_hz, frequency_hz, tlen, k);
        if with_pulse.len() < st {
            with_pulse + repeated(filler, st - with_pulse.len())
        } else {
            with_pulse
        }
    }
}

/// The segment `generate` returns on valid parameters: all filler when the
/// frequency is zero, otherwise the full run of pulse repetitions.
pub open spec fn generated<T>(pulse: Seq<T>, sample_rate_hz: Rat, desc: WaveDescription<T>) -> Seq<
    T,
> {
    if desc.frequency_hz.num == 0 {
        repeated(desc.filler, target_len(sample_rate_hz, desc.duration_sec))
    } else {
        assembled_prefix(
            pulse,
            desc.filler,
            sample_rate_hz,
            desc.frequency_hz,
            target_len(sample_rate_hz, desc.duration_sec),
            pulse_count(desc.frequency_hz, desc.duration_sec),
        )
    }
}

/// Builds one sample segment from the template, the sample rate and the
/// description.  Returns `InvalidParameter`, and nothing else, exactly when
/// the parameters fall outside `params_ok`; on success the segment is
/// exactly the modelled one.
pub fn generate<T: Copy>(
    pulse: &PulseTemplate<T>,
    sample_rate_hz: Rat,
    desc: &WaveDescription<T>,
) -> (r: Result<Vec<T>, EngineError>)
    requires
        pulse.wf(),
        sample_rate_hz.valid(),
        desc.valid(),
        params_ok(sample_rate_hz, desc.frequency_hz, desc.duration_sec) ==> generated(
            pulse@,
            sample_rate_hz,
            *desc,
        ).len() <= usize::MAX,
    ensures
        r is Ok <==> params_ok(sample_rate_hz, desc.frequency_hz, desc.duration_sec),
        r is Ok ==> r->Ok_0@ == generated(pulse@, sample_rate_hz, *desc),
        r is Err ==> r->Err_0 == EngineError::InvalidParameter,
{
    if sample_rate_hz.num < 1 || desc.frequency_hz.num < 0 || desc.duration_sec.num < 0 {
        return Err(EngineError::InvalidParameter);
    }
    let s: u64 = sample_rate_hz.num as u64;
    let t: u64 = sample_rate_hz.den as u64;
    let u: u64 = desc.duration_sec.num as u64;
    let v: u64 = desc.duration_sec.den as u64;
    let fnum: u64 = desc.frequency_hz.num as u64;
    let fden: u64 = desc.frequency_hz.den as u64;

    assert(1 <= (t as u128) * (v as u128) < 0x1_0000_0000_0000_0000_0000u128) by (nonlinear_arith)
        requires 1 <= t < 0x1_0000_0000u64, 1 <= v < 0x1_0000_0000u64;
    assert((s as u128) * (u as u128) < 0x4000_0000_0000_0000u128) by (nonlinear_arith)
        requires s < 0x8000_0000u64, u < 0x8000_0000u64;
    let tlen: u128 = round_div_u128((s as u128) * (u as u128), (t as u128) * (v as u128));
    assert(tlen == target_len(sample_rate_hz, desc.duration_sec));

    if desc.frequency_hz.num == 0 {
        proof {
            crate::rat::lemma_round_div_le_dividend(
                sample_rate_hz.num * desc.duration_sec.num,
                sample_rate_hz.den * desc.duration_sec.den,
            );
            assert(sample_rate_hz.num * desc.duration_sec.num >= 0) by (nonlinear_arith)
                requires sample_rate_hz.num >= 1, desc.duration_sec.num >= 0;
            assert(sample_rate_hz.den * desc.duration_sec.den >= 1) by (nonlinear_arith)
                requires sample_rate_hz.den >= 1, desc.duration_sec.den >= 1;
        }
        let n: usize = tlen as usize;
        let mut seg: Vec<T> = Vec::new();
        while seg.len() < n
            invariant
                seg@.len() <= n,
                forall|i: int| 0 <= i < seg@.len() ==> seg@[i] == desc.filler,
            decreases n - seg@.len(),
        {
            seg.push(desc.filler);
        }
        assert(seg@ =~= repeated(desc.filler, tlen as int));
        return Ok(seg);
    }
    let ghost tlen_i: int = tlen as int;
    assert((fnum as u128) * (u as u128) < 0x4000_0000_0000_0000u128) by (nonlinear_arith)
        requires fnum < 0x8000_0000u64, u < 0x8000_0000u64;
    let pc_raw: u128 = (fnum as u128) * (u as u128);
    assert(1 <= (fden as u128) * (v as u128) < 0x1_0000_0000_0000_0000_0000u128)
        by (nonlinear_arith)
        requires 1 <= fden < 0x1_0000_0000u64, 1 <= v < 0x1_0000_0000u64;
    let pc: u128 = ceil_div_u128(pc_raw, (fden as u128) * (v as u128));
    proof {
        crate::rat::lemma_round_div_le_dividend(
            desc.frequency_hz.num * desc.duration_sec.num,
            desc.frequency_hz.den * desc.duration_sec.den,
        );
        assert(desc.frequency_hz.num * desc.duration_sec.num >= 0) by (nonlinear_arith)
            requires desc.frequency_hz.num >= 1, desc.duration_sec.num >= 0;
        assert(desc.frequency_hz.den * desc.duration_sec.den >= 1) by (nonlinear_arith)
            requires desc.frequency_hz.den >= 1, desc.duration_sec.den >= 1;
    }
    assert(pc == pulse_count(desc.frequency_hz, desc.duration_sec));
    assert(pc <= 0x4000_0000_0000_0000u128) by (nonlinear_arith)
        requires
            pc <= (fnum as u128) * (u as u128),
            fnum < 0x8000_0000,
            u < 0x8000_0000;

    let ps: &Vec<T> = pulse.samples();
    let mut seg: Vec<T> = Vec::new();
    let mut k: u128 = 0;
    while k < pc
        invariant
            0 <= k <= pc,
            pc <= 0x4000_0000_0000_0000u128,
            pc == pulse_count(desc.frequency_hz, desc.duration_sec),
            tlen_i == target_len(sample_rate_hz, desc.duration_sec),
            tlen == tlen_i,
            s == sample_rate_hz.num,
            t == sample_rate_hz.den,
            fnum == desc.frequency_hz.num,
            fden == desc.frequency_hz.den,
            fnum >= 1,
            t >= 1,
            ps@ == pulse@,
            seg@ == assembled_prefix(
                pulse@,
                desc.filler,
                sample_rate_hz,
                desc.frequency_hz,
                tlen_i,
                k as int,
            ),
        decreases pc - k,
    {
        let ghost base: Seq<T> = seg@;
        let mut j: usize = 0;
        while j < ps.len()
            invariant
                0 <= j <= ps@.len(),
                seg@ == base + ps@.take(j as int),
            decreases ps@.len() - j,
        {
            seg.push(ps[j]);
            assert(base + ps@.take(j as int) + seq![ps@[j as int]] =~= base + ps@.take(
                j as int + 1,
            ));
            j = j + 1;
        }
        assert(seg@ =~= base + ps@);

        assert(1 <= (t as u128) * (fnum as u128) < 0x8000_0000_0000_0000u128) by (nonlinear_arith)
            requires 1 <= t < 0x1_0000_0000u64, 1 <= fnum < 0x8000_0000u64;
        let kp1: u128 = k + 1;
        assert((s as u128) * kp1 < 0x2000_0000_0000_0000_0000_0000u128) by (nonlinear_arith)
            requires
                s < 0x8000_0000u64,
                1 <= kp1 <= 0x4000_0000_0000_0000u128;
        let sk: u128 = (s as u128) * kp1;
        assert(sk * (fden as u128) < u128::MAX) by (nonlinear_arith)
            requires
                sk < 0x2000_0000_0000_0000_0000_0000u128,
                fden < 0x1_0000_0000u64;
        let raw: u128 = round_div_u128(sk * (fden as u128), (t as u128) * (fnum as u128));
        assert(raw == step_target_raw(sample_rate_hz, desc.frequency_hz, k as int + 1));
        let st: u128 = if raw < tlen {
            raw
        } else {
            tlen
        };
        assert(st == step_target(sample_rate_hz, desc.frequency_hz, tlen_i, k as int + 1));

        let ghost with_pulse: Seq<T> = seg@;
        while (seg.len() as u128) < st
            invariant
                with_pulse.len() <= seg@.len(),
                seg@ == with_pulse + repeated(desc.filler, seg@.len() - with_pulse.len()),
                seg@.len() <= st || seg@.len() == with_pulse.len(),
            decreases st - seg@.len(),
        {
            seg.push(desc.filler);
            assert(seg@ =~= with_pulse + repeated(
                desc.filler,
                seg@.len() - with_pulse.len(),
            ));
        }
        proof {
            if with_pulse.len() < st {
                assert(seg@.len() == st);
            } else {
                assert(seg@ =~= with_pulse);
            }
            assert(seg@ =~= assembled_prefix(
                pulse@,
                desc.filler,
                sample_rate_hz,
                desc.frequency_hz,
                tlen_i,
                k as int + 1,
            ));
        }
        k = k + 1;
    }
    Ok(seg)
}

/// The target length and the pulse count are nonnegative on valid
/// parameters.
proof fn lemma_counts_nonneg(sample_rate_hz: Rat, frequency_hz: Rat, duration_sec: Rat)
    requires
        sample_rate_hz.valid(),
        frequency_hz.valid(),
        duration_sec.valid(),
        params_ok(sample_rate_hz, frequency_hz, duration_sec),
    ensures
        target_len(sample_rate_hz, duration_sec) >= 0,
        pulse_count(frequency_hz, duration_sec) >= 0,
{
    assert(sample_rate_hz.num * duration_sec.num >= 0) by (nonlinear_arith)
        requires sample_rate_hz.num >= 1, duration_sec.num >= 0;
    assert(sample_rate_hz.den * duration_sec.den >= 1) by (nonlinear_arith)
        requires sample_rate_hz.den >= 1, duration_sec.den >= 1;
    assert(frequency_hz.num * duration_sec.num >= 0) by (nonlinear_arith)
        requires frequency_hz.num >= 0, duration_sec.num >= 0;
    assert(frequency_hz.den * duration_sec.den >= 1) by (nonlinear_arith)
        requires frequency_hz.den >= 1, duration_sec.den >= 1;
    crate::rat::lemma_round_div_le_dividend(
        sample_rate_hz.num * duration_sec.num,
        sample_rate_hz.den * duration_sec.den,
    );
    crate::rat::lemma_round_div_le_dividend(
        frequency_hz.num * duration_sec.num,
        frequency_hz.den * duration_sec.den,
    );
}

/// When no pulse repetition is needed at a nonzero frequency, the duration
/// is zero, so the overall target length is zero as well.
proof fn lemma_zero_pulse_count_zero_target(
    sample_rate_hz: Rat,
    frequency_hz: Rat,
    duration_sec: Rat,
)
    requires
        sample_rate_hz.valid(),
        frequency_hz.valid(),
        duration_sec.valid(),
        params_ok(sample_rate_hz, frequency_hz, duration_sec),
        frequency_hz.num >= 1,
        pulse_count(frequency_hz, duration_sec) == 0,
    ensures
        target_len(sample_rate_hz, duration_sec) == 0,
{
    assert(frequency_hz.num * duration_sec.num >= 0) by (nonlinear_arith)
        requires frequency_hz.num >= 1, duration_sec.num >= 0;
    assert(frequency_hz.den * duration_sec.den >= 1) by (nonlinear_arith)
        requires frequency_hz.den >= 1, duration_sec.den >= 1;
    let p = frequency_hz.num * duration_sec.num;
    let q = frequency_hz.den * duration_sec.den;
    vstd::arithmetic::div_mod::lemma_div_pos_is_pos(p, q);
    vstd::arithmetic::div_mod::lemma_mod_bound(p, q);
    vstd::arithmetic::div_mod::lemma_fundamental_div_mod(p, q);
    assert(p == (p / q) * q + p % q);
    assert(p / q == 0 && p % q == 0);
    assert(p == 0) by (nonlinear_arith)
        requires p == (p / q) * q + p % q, p / q == 0, p % q == 0;
    assert(duration_sec.num == 0) by (nonlinear_arith)
        requires
            frequency_hz.num * duration_sec.num == 0,
            frequency_hz.num >= 1,
            duration_sec.num >= 0;
    assert(sample_rate_hz.den * duration_sec.den >= 1) by (nonlinear_arith)
        requires sample_rate_hz.den >= 1, duration_sec.den >= 1;
    let q2 = sample_rate_hz.den * duration_sec.den;
    assert(sample_rate_hz.num * duration_sec.num == 0) by (nonlinear_arith)
        requires duration_sec.num == 0;
    vstd::arithmetic::div_mod::lemma_small_mod(0nat, q2 as nat);
    assert(0int / q2 == 0) by (nonlinear_arith)
        requires q2 >= 1, q2 == sample_rate_hz.den * duration_sec.den;
}

/// At a nonzero frequency with at least one repetition, the raw target of
/// the final repetition covers the overall target: `ceil(frequency *
/// duration)` repetitions span at least the whole duration.
proof fn lemma_final_step_covers_target(
    sample_rate_hz: Rat,
    frequency_hz: Rat,
    duration_sec: Rat,
)
    requires
        sample_rate_hz.valid(),
        frequency_hz.valid(),
        duration_sec.valid(),
        params_ok(sample_rate_hz, frequency_hz, duration_sec),
        frequency_hz.num >= 1,
        pulse_count(frequency_hz, duration_sec) >= 1,
    ensures
        step_target_raw(sample_rate_hz, frequency_hz, pulse_count(frequency_hz, duration_sec))
            >= target_len(sample_rate_hz, duration_sec),
{
    let s = sample_rate_hz.num as int;
    let t = sample_rate_hz.den as int;
    let u = duration_sec.num as int;
    let v = duration_sec.den as int;
    let f = frequency_hz.num as int;
    let g = frequency_hz.den as int;
    let pc = pulse_count(frequency_hz, duration_sec);
    assert(f * u >= 0) by (nonlinear_arith)
        requires f >= 1, u >= 0;
    assert(g * v >= 1) by (nonlinear_arith)
        requires g >= 1, v >= 1;
    crate::rat::lemma_ceil_div_covers(f * u, g * v);
    assert((s * u) * (t * f) <= (s * pc * g) * (t * v)) by (nonlinear_arith)
        requires
            pc * (g * v) >= f * u,
            s >= 1,
            t >= 1,
            u >= 0,
            v >= 1,
            f >= 1,
            g >= 1,
            pc >= 1;
    assert(s * u >= 0) by (nonlinear_arith)
        requires s >= 1, u >= 0;
    assert(s * pc * g >= 0) by (nonlinear_arith)
        requires s >= 1, pc >= 1, g >= 1;
    assert(t * v >= 1) by (nonlinear_arith)
        requires t >= 1, v >= 1;
    assert(t * f >= 1) by (nonlinear_arith)
        requires t >= 1, f >= 1;
    crate::rat::lemma_round_div_mono(s * u, t * v, s * pc * g, t * f);
}

/// On valid parameters the generated segment never falls short of the
/// overall target length: `len(generate(..)) >= round(sample_rate *
/// duration)`.  The length exceeds the target only where a pulse repetition
/// overruns its step target.
pub proof fn lemma_generated_len_reaches_target<T>(
    pulse: Seq<T>,
    sample_rate_hz: Rat,
    desc: WaveDescription<T>,
)
    requires
        sample_rate_hz.valid(),
        desc.valid(),
        params_ok(sample_rate_hz, desc.frequency_hz, desc.duration_sec),
        pulse.len() >= 1,
    ensures
        generated(pulse, sample_rate_hz, desc).len() >= target_len(
            sample_rate_hz,
            desc.duration_sec,
        ),
{
    let tlen = target_len(sample_rate_hz, desc.duration_sec);
    let pc = pulse_count(desc.frequency_hz, desc.duration_sec);
    lemma_counts_nonneg(sample_rate_hz, desc.frequency_hz, desc.duration_sec);
    if desc.frequency_hz.num == 0 {
        assert(generated(pulse, sample_rate_hz, desc).len() == tlen);
    } else if pc == 0 {
        lemma_zero_pulse_count_zero_target(sample_rate_hz, desc.frequency_hz, desc.duration_sec);
    } else {
        lemma_final_step_covers_target(sample_rate_hz, desc.frequency_hz, desc.duration_sec);
        assert(step_target(sample_rate_hz, desc.frequency_hz, tlen, pc) == tlen);
        assert(assembled_prefix(
            pulse,
            desc.filler,
            sample_rate_hz,
            desc.frequency_hz,
            tlen,
            pc,
        ).len() >= tlen);
    }
}

/// What the final repetition does to the length, exactly: the segment ends
/// at the overall target unless the last pulse overruns it, in which case
/// it ends where that pulse ends.  Any excess over the target is the
/// overrun of the final pulse beyond the point the earlier repetitions
/// reached.
pub proof fn lemma_generated_len_final_step<T>(
    pulse: Seq<T>,
    sample_rate_hz: Rat,
    desc: WaveDescription<T>,
)
    requires
        sample_rate_hz.valid(),
        desc.valid(),
        params_ok(sample_rate_hz, desc.frequency_hz, desc.duration_sec),
        desc.frequency_hz.num >= 1,
        pulse.len() >= 1,
        pulse_count(desc.frequency_hz, desc.duration_sec) >= 1,
    ensures
        generated(pulse, sample_rate_hz, desc).len() == vstd::math::max(
            target_len(sample_rate_hz, desc.duration_sec),
            assembled_prefix(
                pulse,
                desc.filler,
                sample_rate_hz,
                desc.frequency_hz,
                target_len(sample_rate_hz, desc.duration_sec),
                pulse_count(desc.frequency_hz, desc.duration_sec) - 1,
            ).len() + pulse.len() as int,
        ),
{
    let tlen = target_len(sample_rate_hz, desc.duration_sec);
    let pc = pulse_count(desc.frequency_hz, desc.duration_sec);
    lemma_counts_nonneg(sample_rate_hz, desc.frequency_hz, desc.duration_sec);
    lemma_final_step_covers_target(sample_rate_hz, desc.frequency_hz, desc.duration_sec);
    assert(step_target(sample_rate_hz, desc.frequency_hz, tlen, pc) == tlen);
}

/// The template fits its slots: every step target leaves room for one full
/// template beyond the previous step target.  Under this condition no
/// repetition overruns, and the segment comes out at exactly the target
/// length.
pub open spec fn template_fits(
    pulse_len: int,
    sample_rate_hz: Rat,
    frequency_hz: Rat,
    tlen: int,
    pc: int,
) -> bool {
    forall|k: int|
        1 <= k <= pc ==> #[trigger] step_target(sample_rate_hz, frequency_hz, tlen, k) >= step_target(
            sample_rate_hz,
            frequency_hz,
            tlen,
            k - 1,
        ) + pulse_len
}

/// Under `template_fits`, every repetition ends exactly at its step target.
proof fn lemma_prefix_len_exact<T>(
    pulse: Seq<T>,
    filler: T,
    sample_rate_hz: Rat,
    frequency_hz: Rat,
    tlen: int,
    k: int,
)
    requires
        0 <= k,
        template_fits(pulse.len() as int, sample_rate_hz, frequency_hz, tlen, k),
    ensures
        assembled_prefix(pulse, filler, sample_rate_hz, frequency_hz, tlen, k).len()
            == step_target(sample_rate_hz, frequency_hz, tlen, k),
    decreases k,
{
    if k > 0 {
        assert(template_fits(pulse.len() as int, sample_rate_hz, frequency_hz, tlen, k - 1));
        lemma_prefix_len_exact(pulse, filler, sample_rate_hz, frequency_hz, tlen, k - 1);
        let prev = assembled_prefix(pulse, filler, sample_rate_hz, frequency_hz, tlen, k - 1);
        let st = step_target(sample_rate_hz, frequency_hz, tlen, k);
        assert(prev.len() + pulse.len() <= st);
    }
}

/// Where the template fits every slot, generation is exact: the segment
/// length equals `round(sample_rate * duration)`, with no overrun at all.
pub proof fn lemma_generated_len_exact_when_template_fits<T>(
    pulse: Seq<T>,
    sample_rate_hz: Rat,
    desc: WaveDescription<T>,
)
    requires
        sample_rate_hz.valid(),
        desc.valid(),
        params_ok(sample_rate_hz, desc.frequency_hz, desc.duration_sec),
        desc.frequency_hz.num >= 1,
        pulse.len() >= 1,
        template_fits(
            pulse.len() as int,
            sample_rate_hz,
            desc.frequency_hz,
            target_len(sample_rate_hz, desc.duration_sec),
            pulse_count(desc.frequency_hz, desc.duration_sec),
        ),
    ensures
        generated(pulse, sample_rate_hz, desc).len() == target_len(
            sample_rate_hz,
            desc.duration_sec,
        ),
{
    let tlen = target_len(sample_rate_hz, desc.duration_sec);
    let pc = pulse_count(desc.frequency_hz, desc.duration_sec);
    lemma_counts_nonneg(sample_rate_hz, desc.frequency_hz, desc.duration_sec);
    if pc == 0 {
        lemma_zero_pulse_count_zero_target(sample_rate_hz, desc.frequency_hz, desc.duration_sec);
    } else {
        lemma_prefix_len_exact(pulse, desc.filler, sample_rate_hz, desc.frequency_hz, tlen, pc);
        lemma_final_step_covers_target(sample_rate_hz, desc.frequency_hz, desc.duration_sec);
        assert(step_target(sample_rate_hz, desc.frequency_hz, tlen, pc) == tlen);
    }
}

/// At a repetition frequency of zero the segment is exactly the target
/// number of filler copies, whatever the template holds: generation ignores
/// the template entirely.
pub proof fn lemma_zero_frequency_ignores_template<T>(
    pulse_a: Seq<T>,
    pulse_b: Seq<T>,
    sample_rate_hz: Rat,
    desc: WaveDescription<T>,
)
    requires
        desc.frequency_hz.num == 0,
    ensures
        generated(pulse_a, sample_rate_hz, desc) == generated(pulse_b, sample_rate_hz, desc),
        generated(pulse_a, sample_rate_hz, desc) == repeated(
            desc.filler,
            target_len(sample_rate_hz, desc.duration_sec),
        ),
{
}

} // verus!


