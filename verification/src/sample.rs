use vstd::prelude::*;

verus! {

/// One full-scale sample (1.0) in the fixed-point encoding used throughout
/// the engine: a sample value x is stored as the integer round(x * 2^32).
pub const SAMPLE_ONE: i64 = 0x1_0000_0000;

/// Lowest limiter threshold the engine accepts (0.7 full scale).
pub const LIMITER_THRESHOLD_MIN: i64 = 0xB333_3333;

/// Absolute value over the mathematical integers.
pub open spec fn sabs(v: int) -> int {
    if v < 0 {
        -v
    } else {
        v
    }
}

/// What `clamp_unit` returns: the sample forced into [-1.0, 1.0].
pub open spec fn spec_clamp_unit(v: int) -> int {
    if v < -SAMPLE_ONE {
        -SAMPLE_ONE
    } else if v > SAMPLE_ONE {
        SAMPLE_ONE as int
    } else {
        v
    }
}

/// Clamps a fixed-point sample to the unit range [-1.0, 1.0].
pub fn clamp_unit(v: i64) -> (r: i64)
    ensures
        r == spec_clamp_unit(v as int),
        -SAMPLE_ONE <= r <= SAMPLE_ONE,
{
    if v < -SAMPLE_ONE {
        -SAMPLE_ONE
    } else if v > SAMPLE_ONE {
        SAMPLE_ONE
    } else {
        v
    }
}

/// What `normalize_limiter_threshold` returns: the threshold clamped into
/// [0.7, 1.0] full scale.
pub open spec fn spec_normalize_limiter_threshold(v: int) -> int {
    if v < LIMITER_THRESHOLD_MIN {
        LIMITER_THRESHOLD_MIN as int
    } else if v > SAMPLE_ONE {
        SAMPLE_ONE as int
    } else {
        v
    }
}

/// Clamps a limiter threshold into the accepted range [0.7, 1.0].
pub fn normalize_limiter_threshold(v: i64) -> (r: i64)
    ensures
        r == spec_normalize_limiter_threshold(v as int),
        LIMITER_THRESHOLD_MIN <= r <= SAMPLE_ONE,
{
    if v < LIMITER_THRESHOLD_MIN {
        LIMITER_THRESHOLD_MIN
    } else if v > SAMPLE_ONE {
        SAMPLE_ONE
    } else {
        v
    }
}

/// Gain applied to a nonnegative magnitude `m` by a volume in [0, 1]:
/// floor(m * vol / 2^32).
pub open spec fn spec_scale_mag(m: int, vol: int) -> int {
    m * vol / (SAMPLE_ONE as int)
}

/// What `scale_sample` returns: the sample multiplied by the volume,
/// magnitude truncated toward zero.
pub open spec fn spec_scale_sample(v: int, vol: int) -> int {
    if v < 0 {
        -spec_scale_mag(-v, vol)
    } else {
        spec_scale_mag(v, vol)
    }
}

/// Multiplies a sample by a volume factor in [0, 1] full scale.
pub fn scale_sample(v: i64, vol: i64) -> (r: i64)
    requires
        0 <= vol <= SAMPLE_ONE,
    ensures
        r == spec_scale_sample(v as int, vol as int),
        sabs(r as int) <= sabs(v as int),
{
    let mag: i128 = if v < 0 {
        -(v as i128)
    } else {
        v as i128
    };
    proof {
        assert(0 <= mag * vol <= mag * SAMPLE_ONE) by (nonlinear_arith)
            requires
                0 <= vol <= SAMPLE_ONE,
                0 <= mag,
        ;
        assert(mag * SAMPLE_ONE / (SAMPLE_ONE as int) == mag) by (nonlinear_arith)
            requires
                0 <= mag,
        ;
        assert(0 <= mag * vol / (SAMPLE_ONE as int) <= mag) by (nonlinear_arith)
            requires
                0 <= mag * vol <= mag * SAMPLE_ONE,
                mag * SAMPLE_ONE / (SAMPLE_ONE as int) == mag,
        ;
    }
    let scaled: i128 = mag * (vol as i128) / (SAMPLE_ONE as i128);
    let signed: i128 = if v < 0 {
        -scaled
    } else {
        scaled
    };
    signed as i64
}

/// What `clamp_volume` returns: a gain forced into [0, 1].
pub open spec fn spec_clamp_volume(v: int) -> int {
    if v < 0 {
        0
    } else if v > SAMPLE_ONE {
        SAMPLE_ONE as int
    } else {
        v
    }
}

/// Clamps a volume gain into [0, 1].
pub fn clamp_volume(v: i64) -> (r: i64)
    ensures
        r == spec_clamp_volume(v as int),
        0 <= r <= SAMPLE_ONE,
{
    if v < 0 {
        0
    } else if v > SAMPLE_ONE {
        SAMPLE_ONE
    } else {
        v
    }
}

/// Soft-knee limiter curve applied to a magnitude `a` above the (already
/// normalized) threshold `limit`: with t = min((a - limit)/(1 - limit), 1),
/// the output magnitude is limit + (1 - limit)*(t + t^2 - t^3), all in
/// fixed point with truncating division and the shape capped at full scale.
pub open spec fn spec_soft_limit_mag(a: int, limit: int) -> int {
    let den = SAMPLE_ONE - limit;
    let t_raw = if den == 0 {
        SAMPLE_ONE as int
    } else {
        (a - limit) * SAMPLE_ONE / den
    };
    let t = if t_raw > SAMPLE_ONE {
        SAMPLE_ONE as int
    } else {
        t_raw
    };
    let t2 = t * t / (SAMPLE_ONE as int);
    let t3 = t2 * t / (SAMPLE_ONE as int);
    let g_raw = t + t2 - t3;
    let g = if g_raw > SAMPLE_ONE {
        SAMPLE_ONE as int
    } else {
        g_raw
    };
    limit + (SAMPLE_ONE - limit) * g / (SAMPLE_ONE as int)
}

/// What `soft_limit_sample` returns: the sample unchanged while its
/// magnitude is at or below the threshold, else the soft-knee curve of its
/// magnitude with the sign restored.
pub open spec fn spec_soft_limit(x: int, threshold: int) -> int {
    let limit = spec_normalize_limiter_threshold(threshold);
    let a = sabs(x);
    if a <= limit {
        x
    } else if x < 0 {
        -spec_soft_limit_mag(a, limit)
    } else {
        spec_soft_limit_mag(a, limit)
    }
}

/// Facts the limiter curve guarantees for a magnitude above the threshold.
proof fn lemma_soft_limit_mag_range(a: int, limit: int)
    requires
        LIMITER_THRESHOLD_MIN <= limit <= SAMPLE_ONE,
        a > limit,
    ensures
        limit <= spec_soft_limit_mag(a, limit) <= SAMPLE_ONE,
{
    let den = SAMPLE_ONE - limit;
    let t_raw = if den == 0 {
        SAMPLE_ONE as int
    } else {
        (a - limit) * SAMPLE_ONE / den
    };
    assert(t_raw >= 0) by (nonlinear_arith)
        requires
            t_raw == if den == 0 {
                SAMPLE_ONE as int
            } else {
                (a - limit) * SAMPLE_ONE / den
            },
            a > limit,
            0 <= den <= SAMPLE_ONE,
    ;
    let t = if t_raw > SAMPLE_ONE {
        SAMPLE_ONE as int
    } else {
        t_raw
    };
    assert(0 <= t <= SAMPLE_ONE);
    let t2 = t * t / (SAMPLE_ONE as int);
    assert(0 <= t2 <= t) by (nonlinear_arith)
        requires
            t2 == t * t / (SAMPLE_ONE as int),
            0 <= t <= SAMPLE_ONE,
    ;
    let t3 = t2 * t / (SAMPLE_ONE as int);
    assert(0 <= t3 <= t2) by (nonlinear_arith)
        requires
            t3 == t2 * t / (SAMPLE_ONE as int),
            0 <= t2,
            0 <= t <= SAMPLE_ONE,
    ;
    let g_raw = t + t2 - t3;
    let g = if g_raw > SAMPLE_ONE {
        SAMPLE_ONE as int
    } else {
        g_raw
    };
    assert(0 <= g <= SAMPLE_ONE);
    let lift = (SAMPLE_ONE - limit) * g / (SAMPLE_ONE as int);
    assert(0 <= lift <= SAMPLE_ONE - limit) by (nonlinear_arith)
        requires
            lift == (SAMPLE_ONE - limit) * g / (SAMPLE_ONE as int),
            0 <= g <= SAMPLE_ONE,
            0 <= SAMPLE_ONE - limit,
    ;
}

/// The limiter leaves samples at or below the threshold untouched, keeps
/// the sign of louder samples, never exceeds full scale on them, and
/// strictly attenuates samples beyond full scale.
pub proof fn lemma_soft_limit_properties(x: int, threshold: int)
    ensures
        sabs(x) <= spec_normalize_limiter_threshold(threshold) ==> spec_soft_limit(x, threshold)
            == x,
        sabs(x) > spec_normalize_limiter_threshold(threshold) ==> (x > 0 ==> spec_soft_limit(
            x,
            threshold,
        ) > 0) && (x < 0 ==> spec_soft_limit(x, threshold) < 0) && sabs(
            spec_soft_limit(x, threshold),
        ) <= SAMPLE_ONE,
        sabs(x) > SAMPLE_ONE ==> sabs(spec_soft_limit(x, threshold)) < sabs(x),
{
    let limit = spec_normalize_limiter_threshold(threshold);
    if sabs(x) > limit {
        lemma_soft_limit_mag_range(sabs(x), limit);
    }
}

/// Applies the soft-knee limiter to one sample.
pub fn soft_limit_sample(sample: i64, threshold: i64) -> (r: i64)
    ensures
        r == spec_soft_limit(sample as int, threshold as int),
{
    let limit: i64 = normalize_limiter_threshold(threshold);
    let a: i128 = if sample < 0 {
        -(sample as i128)
    } else {
        sample as i128
    };
    if a <= limit as i128 {
        return sample;
    }
    let den: i128 = (SAMPLE_ONE - limit) as i128;
    let t_raw: i128 = if den == 0 {
        SAMPLE_ONE as i128
    } else {
        (a - limit as i128) * (SAMPLE_ONE as i128) / den
    };
    proof {
        assert(t_raw >= 0) by (nonlinear_arith)
            requires
                t_raw == if den == 0 {
                    SAMPLE_ONE as int
                } else {
                    (a - limit) * SAMPLE_ONE / (den as int)
                },
                a > limit,
                0 <= den <= SAMPLE_ONE,
        ;
    }
    let t: i128 = if t_raw > SAMPLE_ONE as i128 {
        SAMPLE_ONE as i128
    } else {
        t_raw
    };
    proof {
        assert(0 <= t * t <= SAMPLE_ONE * SAMPLE_ONE && 0 <= t * t / (SAMPLE_ONE as int) <= t)
            by (nonlinear_arith)
            requires
                0 <= t <= SAMPLE_ONE,
        ;
    }
    let t2: i128 = t * t / (SAMPLE_ONE as i128);
    proof {
        assert(0 <= t2 * t <= SAMPLE_ONE * SAMPLE_ONE && 0 <= t2 * t / (SAMPLE_ONE as int) <= t2)
            by (nonlinear_arith)
            requires
                0 <= t2 <= SAMPLE_ONE,
                0 <= t <= SAMPLE_ONE,
        ;
    }
    let t3: i128 = t2 * t / (SAMPLE_ONE as i128);
    let g_raw: i128 = t + t2 - t3;
    let g: i128 = if g_raw > SAMPLE_ONE as i128 {
        SAMPLE_ONE as i128
    } else {
        g_raw
    };
    proof {
        assert(0 <= (SAMPLE_ONE - limit) * g <= SAMPLE_ONE * SAMPLE_ONE && 0 <= (SAMPLE_ONE - limit)
            * g / (SAMPLE_ONE as int) <= SAMPLE_ONE - limit) by (nonlinear_arith)
            requires
                0 <= g <= SAMPLE_ONE,
                0 <= SAMPLE_ONE - limit <= SAMPLE_ONE,
        ;
    }
    let lift: i128 = ((SAMPLE_ONE as i128) - limit as i128) * g / (SAMPLE_ONE as i128);
    let shaped: i128 = limit as i128 + lift;
    if sample < 0 {
        (-shaped) as i64
    } else {
        shaped as i64
    }
}

/// What `quantize_to_step` returns: for a positive step, the value rounded
/// half away from zero onto the step grid and clamped to [-1.0, 1.0];
/// otherwise the value unchanged.
pub open spec fn spec_quantize(value: int, step: int) -> int {
    if step <= 0 {
        value
    } else {
        let half = step / 2;
        let m = if value >= 0 {
            (value + half) / step
        } else {
            -((-value + half) / step)
        };
        spec_clamp_unit_int(m * step)
    }
}

/// `spec_clamp_unit` over unbounded integers.
pub open spec fn spec_clamp_unit_int(v: int) -> int {
    if v < -SAMPLE_ONE {
        -SAMPLE_ONE
    } else if v > SAMPLE_ONE {
        SAMPLE_ONE as int
    } else {
        v
    }
}

/// Rounds one sample to the nearest multiple of `step` (half away from
/// zero) and clamps the result to [-1.0, 1.0]; a non-positive step leaves
/// the sample unchanged.
pub fn quantize_to_step(value: i64, step: i64) -> (r: i64)
    ensures
        r == spec_quantize(value as int, step as int),
        step >= 1 ==> -SAMPLE_ONE <= r <= SAMPLE_ONE,
{
    if step <= 0 {
        return value;
    }
    let half: i128 = (step as i128) / 2;
    let m: i128 = if value >= 0 {
        ((value as i128) + half) / (step as i128)
    } else {
        -(((-(value as i128)) + half) / (step as i128))
    };
    proof {
        if value >= 0 {
            assert(0 <= m * step <= value + step) by (nonlinear_arith)
                requires
                    m == ((value as int) + half) / (step as int),
                    value >= 0,
                    step >= 1,
                    0 <= half < step,
            ;
        } else {
            let inner = ((-(value as int)) + half) / (step as int);
            assert(m == -inner);
            assert(0 <= inner * step <= -(value as int) + step) by (nonlinear_arith)
                requires
                    inner == ((-(value as int)) + half) / (step as int),
                    value < 0,
                    step >= 1,
                    0 <= half < step,
            ;
            assert(m * step == -(inner * step)) by (nonlinear_arith)
                requires
                    m == -inner,
            ;
        }
    }
    let snapped: i128 = m * (step as i128);
    if snapped < -(SAMPLE_ONE as i128) {
        -SAMPLE_ONE
    } else if snapped > SAMPLE_ONE as i128 {
        SAMPLE_ONE
    } else {
        snapped as i64
    }
}

/// Rounding an on-grid magnitude is exact: for 0 <= m with m*step within
/// range, quantizing m*step yields m*step again.
proof fn lemma_snap_exact(m: int, step: int)
    requires
        1 <= step,
        0 <= m,
    ensures
        (m * step + step / 2) / step == m,
{
    assert((m * step + step / 2) / step == m) by (nonlinear_arith)
        requires
            1 <= step,
            0 <= m,
            0 <= step / 2 < step,
    ;
}

/// Quantization is idempotent on any step that divides full scale, and its
/// result never leaves [-1.0, 1.0].
pub proof fn lemma_quantize_idempotent(value: int, step: int)
    requires
        1 <= step,
        (SAMPLE_ONE as int) % step == 0,
    ensures
        spec_quantize(spec_quantize(value, step), step) == spec_quantize(value, step),
        sabs(spec_quantize(value, step)) <= SAMPLE_ONE,
{
    let half = step / 2;
    let m = if value >= 0 {
        (value + half) / step
    } else {
        -((-value + half) / step)
    };
    let q = spec_clamp_unit_int(m * step);
    assert(spec_quantize(value, step) == q);
    assert(-SAMPLE_ONE <= q <= SAMPLE_ONE);
    let k = (SAMPLE_ONE as int) / step;
    assert(k * step == SAMPLE_ONE) by (nonlinear_arith)
        requires
            1 <= step,
            (SAMPLE_ONE as int) % step == 0,
            k == (SAMPLE_ONE as int) / step,
    ;
    // q is a multiple of step: identify the multiplier that reproduces it.
    let n = if m * step > SAMPLE_ONE {
        k
    } else if m * step < -SAMPLE_ONE {
        -k
    } else {
        m
    };
    if m * step > SAMPLE_ONE {
        assert(q == SAMPLE_ONE as int);
        assert(n * step == q);
    } else if m * step < -SAMPLE_ONE {
        assert(q == -SAMPLE_ONE);
        assert(n * step == -(k * step)) by (nonlinear_arith)
            requires
                n == -k,
        ;
        assert(n * step == q);
    } else {
        assert(q == m * step);
        assert(n * step == q);
    }
    // Requantizing q lands on the same multiple.
    if q >= 0 {
        assert(n >= 0) by (nonlinear_arith)
            requires
                q == n * step,
                q >= 0,
                step >= 1,
        ;
        lemma_snap_exact(n, step);
        assert((q + half) / step == n);
        assert(spec_quantize(q, step) == spec_clamp_unit_int(n * step));
        assert(spec_quantize(q, step) == q);
    } else {
        assert(n <= 0 && -q == (-n) * step) by (nonlinear_arith)
            requires
                q == n * step,
                q < 0,
                step >= 1,
        ;
        lemma_snap_exact(-n, step);
        assert((-q + half) / step == -n);
        assert(-((-q + half) / step) == n);
        assert(spec_quantize(q, step) == spec_clamp_unit_int(n * step));
        assert(spec_quantize(q, step) == q);
    }
}

} // verus!
