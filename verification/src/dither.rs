use vstd::prelude::*;
use crate::sample::{
    spec_clamp_unit_int, spec_quantize, quantize_to_step, clamp_unit, SAMPLE_ONE,
};
use crate::text::{spec_lower_seq, eq_lowered};

verus! {

/// Multiplier of the 64-bit linear congruential generator that drives the
/// dither noise.
pub const LCG_MULTIPLIER: u64 = 6364136223846793005;

/// One past the largest 64-bit value, for wrapping arithmetic in specs.
pub open spec fn two_pow_64() -> int {
    0x1_0000_0000_0000_0000
}

/// Error-feedback state is kept for at most this many channels; higher
/// channel counts fall back to unshaped dither.
pub const MAX_DITHER_CHANNELS: usize = 8;

/// One step of the generator: seed * multiplier + 1, wrapping at 2^64.
#[verifier::opaque]
pub open spec fn spec_lcg(seed: int) -> int {
    (seed * (LCG_MULTIPLIER as int) + 1) % two_pow_64()
}

/// The generator iterated `k` times.
pub open spec fn spec_lcg_iter(seed: int, k: nat) -> int
    decreases k,
{
    if k == 0 {
        seed
    } else {
        spec_lcg(spec_lcg_iter(seed, (k - 1) as nat))
    }
}

/// The uniform fixed-point value drawn from a seed: its upper 32 bits,
/// read as a fraction of full scale in [0, 1).
pub open spec fn spec_uniform(seed: int) -> int {
    seed / 0x1_0000_0000
}

/// Integer division truncating toward zero, as the hardware divides.
pub open spec fn spec_div_trunc(a: int, d: int) -> int {
    if a < 0 {
        -((-a) / d)
    } else {
        a / d
    }
}

/// Dither bit depths outside [8, 32] are folded back into that range.
pub open spec fn spec_effective_bits(bits: int) -> int {
    if bits < 8 {
        8
    } else if bits > 32 {
        32
    } else {
        bits
    }
}

/// The dither step (one least significant bit of the target depth) in
/// fixed point: 2^32 / 2^(bits-1).
pub open spec fn spec_lsb(bits: int) -> int {
    (SAMPLE_ONE as int) / (vstd::arithmetic::power2::pow2(
        (spec_effective_bits(bits) - 1) as nat,
    ) as int)
}

/// Advances the generator and returns the uniform draw of the new seed.
#[verifier::rlimit(50)]
fn next_uniform(seed: &mut u64) -> (r: u32)
    ensures
        *final(seed) == spec_lcg(*old(seed) as int),
        r == spec_uniform(*final(seed) as int),
{
    let a: u64 = seed.wrapping_mul(LCG_MULTIPLIER);
    let stepped: u64 = a.wrapping_add(1);
    proof {
        reveal(spec_lcg);
        let s = *seed as int;
        let m = LCG_MULTIPLIER as int;
        assert(a == (s * m) % two_pow_64());
        if a == u64::MAX {
            assert(stepped == 0);
            assert((a + 1) % two_pow_64() == 0);
        } else {
            vstd::arithmetic::div_mod::lemma_small_mod((a + 1) as nat, two_pow_64() as nat);
        }
        assert(stepped == ((s * m) % two_pow_64() + 1) % two_pow_64());
        vstd::arithmetic::div_mod::lemma_add_mod_noop(s * m, 1, two_pow_64());
        assert(1int % two_pow_64() == 1);
        assert(stepped == spec_lcg(s));
        vstd::bits::lemma_u64_shr_is_div(stepped, 32);
        vstd::arithmetic::power2::lemma2_to64();
        assert(vstd::arithmetic::power2::pow2(32) == 0x1_0000_0000);
        assert(stepped >> 32 == stepped as nat / 0x1_0000_0000nat);
    }
    *seed = stepped;
    (stepped >> 32) as u32
}

/// Clamps a dither bit depth into [8, 32].
fn effective_bits(bits: u32) -> (r: u32)
    ensures
        r == spec_effective_bits(bits as int),
        8 <= r <= 32,
{
    if bits < 8 {
        8
    } else if bits > 32 {
        32
    } else {
        bits
    }
}

/// Computes 2^(bits-1) for a bit depth already clamped to [8, 32].
fn noise_divisor(eff: u32) -> (r: i64)
    requires
        8 <= eff <= 32,
    ensures
        r == vstd::arithmetic::power2::pow2((eff - 1) as nat),
        2 <= r <= 0x8000_0000,
{
    let shift: u64 = (eff - 1) as u64;
    let d: u64 = 1u64 << shift;
    proof {
        vstd::arithmetic::power2::lemma2_to64();
        vstd::arithmetic::power2::lemma_pow2_strictly_increases(shift as nat, 32);
        vstd::bits::lemma_u64_shl_is_mul(1u64, shift);
    }
    d as i64
}

/// Draws one triangular noise value, advancing the seed twice.
#[verifier::rlimit(50)]
fn draw_tpdf_noise(seed: &mut u64, divisor: i64) -> (r: i64)
    requires
        2 <= divisor,
    ensures
        *final(seed) == spec_lcg_iter(*old(seed) as int, 2),
        r == spec_tpdf_noise_with(*old(seed) as int, divisor as int),
        -SAMPLE_ONE < r < SAMPLE_ONE,
{
    let u1: i64 = next_uniform(seed) as i64;
    let u2: i64 = next_uniform(seed) as i64;
    let diff: i64 = u1 - u2;
    proof {
        reveal_with_fuel(spec_lcg_iter, 3);
        assert(spec_lcg_iter(*old(seed) as int, 2) == spec_lcg(
            spec_lcg_iter(*old(seed) as int, 1),
        ));
        assert(spec_lcg_iter(*old(seed) as int, 1) == spec_lcg(*old(seed) as int));
        if diff < 0 {
            assert(0 <= (-(diff as int)) / (divisor as int) <= (-(diff as int)) / 2) by (nonlinear_arith)
                requires
                    2 <= divisor,
                    0 < -diff,
            ;
        } else {
            assert(0 <= (diff as int) / (divisor as int) <= (diff as int) / 2) by (nonlinear_arith)
                requires
                    2 <= divisor,
                    0 <= diff,
            ;
        }
    }
    if diff < 0 {
        -((-diff) / divisor)
    } else {
        diff / divisor
    }
}

/// Triangular noise in terms of an explicit divisor 2^(bits-1).
pub open spec fn spec_tpdf_noise_with(seed: int, divisor: int) -> int {
    let s1 = spec_lcg(seed);
    let s2 = spec_lcg(s1);
    spec_div_trunc(spec_uniform(s1) - spec_uniform(s2), divisor)
}

/// One unshaped dither step stated over the divisor actually used.
pub open spec fn spec_tpdf_sample_with(x: int, seed: int, divisor: int) -> int {
    spec_clamp_unit_int(x + spec_tpdf_noise_with(seed, divisor))
}

/// Adds triangular dither noise of one least-significant-bit amplitude to
/// every sample and clamps each result to [-1.0, 1.0]. The noise sequence
/// is a pure function of the seed; the seed advances twice per sample.
pub fn apply_tpdf_dither(samples: &mut Vec<i64>, bits: u32, seed: &mut u64)
    requires
        forall|i: int|
            0 <= i < old(samples)@.len() ==> -SAMPLE_ONE <= #[trigger] old(samples)@[i]
                <= SAMPLE_ONE,
    ensures
        final(samples)@.len() == old(samples)@.len(),
        *final(seed) == spec_lcg_iter(*old(seed) as int, (2 * old(samples)@.len()) as nat),
        forall|i: int|
            0 <= i < old(samples)@.len() ==> #[trigger] final(samples)@[i] == spec_tpdf_sample_with(
                old(samples)@[i] as int,
                spec_lcg_iter(*old(seed) as int, (2 * i) as nat),
                vstd::arithmetic::power2::pow2((spec_effective_bits(bits as int) - 1) as nat) as int,
            ),
        forall|i: int|
            0 <= i < final(samples)@.len() ==> -SAMPLE_ONE <= #[trigger] final(samples)@[i]
                <= SAMPLE_ONE,
{
    let eff: u32 = effective_bits(bits);
    let divisor: i64 = noise_divisor(eff);
    let ghost s0: int = *seed as int;
    let ghost input: Seq<i64> = samples@;
    let n: usize = samples.len();
    let mut idx: usize = 0;
    while idx < n
        invariant
            n == input.len(),
            samples@.len() == n,
            idx <= n,
            divisor == vstd::arithmetic::power2::pow2(
                (spec_effective_bits(bits as int) - 1) as nat,
            ),
            2 <= divisor,
            *seed == spec_lcg_iter(s0, (2 * idx) as nat),
            forall|i: int|
                idx <= i < n ==> #[trigger] samples@[i] == input[i] && -SAMPLE_ONE <= samples@[i]
                    <= SAMPLE_ONE,
            forall|i: int|
                0 <= i < idx ==> #[trigger] samples@[i] == spec_tpdf_sample_with(
                    input[i] as int,
                    spec_lcg_iter(s0, (2 * i) as nat),
                    divisor as int,
                ) && -SAMPLE_ONE <= samples@[i] <= SAMPLE_ONE,
        decreases n - idx,
    {
        let x: i64 = samples[idx];
        let ghost seed_before: int = *seed as int;
        let noise: i64 = draw_tpdf_noise(seed, divisor);
        let v: i64 = clamp_unit(x + noise);
        samples.set(idx, v);
        proof {
            lemma_lcg_iter_add(s0, (2 * idx) as nat, 2);
        }
        idx = idx + 1;
    }
}

/// Splitting an iteration count: iterating a+b times is iterating b times
/// after a times.
pub proof fn lemma_lcg_iter_add(s: int, a: nat, b: nat)
    ensures
        spec_lcg_iter(s, a + b) == spec_lcg_iter(spec_lcg_iter(s, a), b),
    decreases b,
{
    if b > 0 {
        lemma_lcg_iter_add(s, a, (b - 1) as nat);
        assert(spec_lcg_iter(s, a + b) == spec_lcg(spec_lcg_iter(s, (a + b - 1) as nat)));
    }
}

/// Error feedback added to a sample before dithering: first order replays
/// the last error, second order extrapolates from the last two.
pub open spec fn spec_shaped_feedback(order: int, e1: int, e2: int) -> int {
    if order == 1 {
        e1
    } else {
        2 * e1 - e2
    }
}

/// The per-channel error memories after the first `i` samples of a shaped
/// dither pass: component 0 is the latest error, component 1 the one
/// before it, each indexed by channel.
pub open spec fn spec_shaped_errs(
    input: Seq<i64>,
    divisor: int,
    lsb: int,
    ch: int,
    order: int,
    seed0: int,
    e1_0: Seq<int>,
    e2_0: Seq<int>,
    i: nat,
) -> (Seq<int>, Seq<int>)
    decreases i,
{
    if i == 0 {
        (e1_0, e2_0)
    } else {
        let prev = spec_shaped_errs(
            input,
            divisor,
            lsb,
            ch,
            order,
            seed0,
            e1_0,
            e2_0,
            (i - 1) as nat,
        );
        let c = ((i - 1) as int) % ch;
        let x = input[(i - 1) as int] as int;
        let shaped = x + spec_shaped_feedback(order, prev.0[c], prev.1[c]);
        let noise = spec_tpdf_noise_with(spec_lcg_iter(seed0, (2 * (i - 1)) as nat), divisor);
        let dithered = spec_clamp_unit_int(shaped + noise);
        let quantized = spec_quantize(dithered, lsb);
        (prev.0.update(c, dithered - quantized), prev.1.update(c, prev.0[c]))
    }
}

/// The sample a shaped dither pass emits at index `i`: error feedback
/// added, triangular noise added, clamped, then snapped to the grid.
pub open spec fn spec_shaped_out(
    input: Seq<i64>,
    divisor: int,
    lsb: int,
    ch: int,
    order: int,
    seed0: int,
    e1_0: Seq<int>,
    e2_0: Seq<int>,
    i: int,
) -> int {
    let prev = spec_shaped_errs(input, divisor, lsb, ch, order, seed0, e1_0, e2_0, i as nat);
    let c = i % ch;
    let x = input[i] as int;
    let shaped = x + spec_shaped_feedback(order, prev.0[c], prev.1[c]);
    let noise = spec_tpdf_noise_with(spec_lcg_iter(seed0, (2 * i) as nat), divisor);
    let dithered = spec_clamp_unit_int(shaped + noise);
    spec_quantize(dithered, lsb)
}

/// Noise-shaped triangular dither with per-channel error feedback of the
/// given order (1 or 2). Channel counts above the error-memory size, or a
/// zero order, fall back to plain dither and leave the memories alone.
/// Every output sample lies in [-1.0, 1.0]; the seed advances twice per
/// sample; the error memories stay within twice full scale.
pub fn apply_tpdf_dither_shaped(
    samples: &mut Vec<i64>,
    bits: u32,
    channels: usize,
    seed: &mut u64,
    err1: &mut Vec<i64>,
    err2: &mut Vec<i64>,
    order: u8,
)
    requires
        forall|i: int|
            0 <= i < old(samples)@.len() ==> -SAMPLE_ONE <= #[trigger] old(samples)@[i]
                <= SAMPLE_ONE,
        old(err1)@.len() == MAX_DITHER_CHANNELS,
        old(err2)@.len() == MAX_DITHER_CHANNELS,
        forall|c: int|
            0 <= c < MAX_DITHER_CHANNELS ==> -2 * SAMPLE_ONE <= #[trigger] old(err1)@[c] <= 2
                * SAMPLE_ONE,
        forall|c: int|
            0 <= c < MAX_DITHER_CHANNELS ==> -2 * SAMPLE_ONE <= #[trigger] old(err2)@[c] <= 2
                * SAMPLE_ONE,
    ensures
        final(samples)@.len() == old(samples)@.len(),
        final(err1)@.len() == MAX_DITHER_CHANNELS,
        final(err2)@.len() == MAX_DITHER_CHANNELS,
        *final(seed) == spec_lcg_iter(*old(seed) as int, (2 * old(samples)@.len()) as nat),
        forall|i: int|
            0 <= i < final(samples)@.len() ==> -SAMPLE_ONE <= #[trigger] final(samples)@[i]
                <= SAMPLE_ONE,
        forall|c: int|
            0 <= c < MAX_DITHER_CHANNELS ==> -2 * SAMPLE_ONE <= #[trigger] final(err1)@[c] <= 2
                * SAMPLE_ONE,
        forall|c: int|
            0 <= c < MAX_DITHER_CHANNELS ==> -2 * SAMPLE_ONE <= #[trigger] final(err2)@[c] <= 2
                * SAMPLE_ONE,
        spec_max_usize(channels, 1) > MAX_DITHER_CHANNELS || order == 0 ==> final(err1)@ == old(
            err1,
        )@ && final(err2)@ == old(err2)@ && forall|i: int|
            0 <= i < old(samples)@.len() ==> #[trigger] final(samples)@[i] == spec_tpdf_sample_with(
                old(samples)@[i] as int,
                spec_lcg_iter(*old(seed) as int, (2 * i) as nat),
                vstd::arithmetic::power2::pow2((spec_effective_bits(bits as int) - 1) as nat) as int,
            ),
        spec_max_usize(channels, 1) <= MAX_DITHER_CHANNELS && order != 0 ==> (forall|i: int|
            0 <= i < old(samples)@.len() ==> #[trigger] final(samples)@[i] == spec_shaped_out(
                old(samples)@,
                vstd::arithmetic::power2::pow2((spec_effective_bits(bits as int) - 1) as nat) as int,
                spec_lsb(bits as int),
                spec_max_usize(channels, 1) as int,
                order as int,
                *old(seed) as int,
                old(err1)@.map_values(|v: i64| v as int),
                old(err2)@.map_values(|v: i64| v as int),
                i,
            )) && final(err1)@.map_values(|v: i64| v as int) == spec_shaped_errs(
            old(samples)@,
            vstd::arithmetic::power2::pow2((spec_effective_bits(bits as int) - 1) as nat) as int,
            spec_lsb(bits as int),
            spec_max_usize(channels, 1) as int,
            order as int,
            *old(seed) as int,
            old(err1)@.map_values(|v: i64| v as int),
            old(err2)@.map_values(|v: i64| v as int),
            old(samples)@.len(),
        ).0 && final(err2)@.map_values(|v: i64| v as int) == spec_shaped_errs(
            old(samples)@,
            vstd::arithmetic::power2::pow2((spec_effective_bits(bits as int) - 1) as nat) as int,
            spec_lsb(bits as int),
            spec_max_usize(channels, 1) as int,
            order as int,
            *old(seed) as int,
            old(err1)@.map_values(|v: i64| v as int),
            old(err2)@.map_values(|v: i64| v as int),
            old(samples)@.len(),
        ).1,
{
    let ch: usize = if channels < 1 {
        1
    } else {
        channels
    };
    if ch > MAX_DITHER_CHANNELS || order == 0 {
        apply_tpdf_dither(samples, bits, seed);
        return ;
    }
    let eff: u32 = effective_bits(bits);
    let divisor: i64 = noise_divisor(eff);
    let lsb: i64 = SAMPLE_ONE / divisor;
    proof {
        vstd::arithmetic::power2::lemma_pow2_strictly_increases((eff - 1) as nat, 32);
        vstd::arithmetic::power2::lemma2_to64();
        assert(lsb == spec_lsb(bits as int));
        assert(lsb >= 2) by (nonlinear_arith)
            requires
                lsb == (SAMPLE_ONE as int) / (divisor as int),
                2 <= divisor <= 0x8000_0000,
                SAMPLE_ONE == 0x1_0000_0000,
        ;
    }
    let ghost s0: int = *seed as int;
    let ghost input: Seq<i64> = samples@;
    let ghost e1_0: Seq<int> = err1@.map_values(|v: i64| v as int);
    let ghost e2_0: Seq<int> = err2@.map_values(|v: i64| v as int);
    let n: usize = samples.len();
    let mut idx: usize = 0;
    while idx < n
        invariant
            n == input.len(),
            samples@.len() == n,
            err1@.len() == MAX_DITHER_CHANNELS,
            err2@.len() == MAX_DITHER_CHANNELS,
            idx <= n,
            1 <= ch <= MAX_DITHER_CHANNELS,
            1 <= order,
            divisor == vstd::arithmetic::power2::pow2(
                (spec_effective_bits(bits as int) - 1) as nat,
            ),
            2 <= divisor,
            lsb == spec_lsb(bits as int),
            2 <= lsb,
            *seed == spec_lcg_iter(s0, (2 * idx) as nat),
            err1@.map_values(|v: i64| v as int) == spec_shaped_errs(
                input,
                divisor as int,
                lsb as int,
                ch as int,
                order as int,
                s0,
                e1_0,
                e2_0,
                idx as nat,
            ).0,
            err2@.map_values(|v: i64| v as int) == spec_shaped_errs(
                input,
                divisor as int,
                lsb as int,
                ch as int,
                order as int,
                s0,
                e1_0,
                e2_0,
                idx as nat,
            ).1,
            forall|c: int|
                0 <= c < MAX_DITHER_CHANNELS ==> -2 * SAMPLE_ONE <= #[trigger] err1@[c] <= 2
                    * SAMPLE_ONE,
            forall|c: int|
                0 <= c < MAX_DITHER_CHANNELS ==> -2 * SAMPLE_ONE <= #[trigger] err2@[c] <= 2
                    * SAMPLE_ONE,
            forall|i: int|
                idx <= i < n ==> #[trigger] samples@[i] == input[i] && -SAMPLE_ONE <= samples@[i]
                    <= SAMPLE_ONE,
            forall|i: int|
                0 <= i < idx ==> #[trigger] samples@[i] == spec_shaped_out(
                    input,
                    divisor as int,
                    lsb as int,
                    ch as int,
                    order as int,
                    s0,
                    e1_0,
                    e2_0,
                    i,
                ) && -SAMPLE_ONE <= samples@[i] <= SAMPLE_ONE,
        decreases n - idx,
    {
        let x: i64 = samples[idx];
        let c: usize = idx % ch;
        let e1c: i64 = err1[c];
        let e2c: i64 = err2[c];
        let feedback: i64 = if order == 1 {
            e1c
        } else {
            2 * e1c - e2c
        };
        let shaped: i64 = x + feedback;
        let noise: i64 = draw_tpdf_noise(seed, divisor);
        let dithered: i64 = clamp_unit(shaped + noise);
        let quantized: i64 = quantize_to_step(dithered, lsb);
        let error: i64 = dithered - quantized;
        err2.set(c, e1c);
        err1.set(c, error);
        samples.set(idx, quantized);
        proof {
            lemma_lcg_iter_add(s0, (2 * idx) as nat, 2);
            let next = spec_shaped_errs(
                input,
                divisor as int,
                lsb as int,
                ch as int,
                order as int,
                s0,
                e1_0,
                e2_0,
                (idx + 1) as nat,
            );
            assert(err1@.map_values(|v: i64| v as int) =~= next.0);
            assert(err2@.map_values(|v: i64| v as int) =~= next.1);
        }
        idx = idx + 1;
    }
}

/// The larger of two machine integers.
pub open spec fn spec_max_usize(a: usize, b: usize) -> usize {
    if a < b {
        b
    } else {
        a
    }
}

/// Two dither passes over the same samples with the same bit depth and
/// seed produce the same output: the contract pins each output sample to
/// a function of those arguments alone.
pub proof fn lemma_dither_runs_agree(
    input: Seq<i64>,
    divisor: int,
    seed: int,
    out_a: Seq<i64>,
    out_b: Seq<i64>,
)
    requires
        out_a.len() == input.len(),
        out_b.len() == input.len(),
        forall|i: int|
            0 <= i < input.len() ==> #[trigger] out_a[i] == spec_tpdf_sample_with(
                input[i] as int,
                spec_lcg_iter(seed, (2 * i) as nat),
                divisor,
            ),
        forall|i: int|
            0 <= i < input.len() ==> #[trigger] out_b[i] == spec_tpdf_sample_with(
                input[i] as int,
                spec_lcg_iter(seed, (2 * i) as nat),
                divisor,
            ),
    ensures
        out_a == out_b,
{
    assert(out_a =~= out_b);
}

/// What `normalize_dither_bits` returns: 16 and 24 pass through, any
/// other depth falls back to 24.
pub open spec fn spec_normalize_dither_bits(bits: int) -> int {
    if bits == 16 || bits == 24 {
        bits
    } else {
        24
    }
}

/// Folds a requested dither bit depth onto the supported targets.
pub fn normalize_dither_bits(bits: u32) -> (r: u32)
    ensures
        r == spec_normalize_dither_bits(bits as int),
{
    match bits {
        16 | 24 => bits,
        _ => 24,
    }
}

/// What `normalize_dither_type` returns: a recognized dither type
/// lowered, anything else mapped to plain triangular dither.
#[verifier::opaque]
pub open spec fn spec_normalize_dither_type(v: Seq<char>) -> Seq<char> {
    let n = spec_lower_seq(v);
    if n == "off"@ || n == "tpdf"@ || n == "tpdf_ns1"@ || n == "tpdf_ns2"@ {
        n
    } else {
        "tpdf"@
    }
}

/// Folds a requested dither type onto the recognized set.
pub fn normalize_dither_type(value: &str) -> (r: String)
    ensures
        r@ == spec_normalize_dither_type(value@),
{
    proof {
        reveal(spec_normalize_dither_type);
    }
    if eq_lowered(value, "off") {
        String::from_str("off")
    } else if eq_lowered(value, "tpdf") {
        String::from_str("tpdf")
    } else if eq_lowered(value, "tpdf_ns1") {
        String::from_str("tpdf_ns1")
    } else if eq_lowered(value, "tpdf_ns2") {
        String::from_str("tpdf_ns2")
    } else {
        String::from_str("tpdf")
    }
}

/// Relies on std::time::SystemTime::now for a fresh dither seed: the
/// nanoseconds since the epoch, or a fixed fallback if the clock sits
/// before it. Nothing is promised of the value.
#[verifier::external_body]
pub fn initial_dither_seed() -> u64 {
    std::time::SystemTime::now()
        .duration_since(std::time::UNIX_EPOCH)
        .map(|d| d.as_nanos() as u64)
        .unwrap_or(0x1234_5678_9abc_def0)
}


/// The geometric sum 1 + A + A^2 + ... of the multiplier, over the true
/// integers: after k generator steps the seed has moved by this sum
/// times a fixed odd offset, modulo 2^64.
pub open spec fn spec_geo(k: nat) -> int
    decreases k,
{
    if k == 0 {
        0
    } else {
        1 + (LCG_MULTIPLIER as int) * spec_geo((k - 1) as nat)
    }
}

/// The number of factors of two in a positive count.
pub open spec fn spec_v2(k: nat) -> nat
    decreases k,
{
    if k == 0 {
        0
    } else if k % 2 == 1 {
        0
    } else {
        1 + spec_v2(k / 2)
    }
}

/// The geometric sum is nonnegative and has the parity of its length.
proof fn lemma_geo_parity(k: nat)
    ensures
        spec_geo(k) >= 0,
        spec_geo(k) % 2 == k % 2,
    decreases k,
{
    if k > 0 {
        lemma_geo_parity((k - 1) as nat);
        let a = LCG_MULTIPLIER as int;
        let g = spec_geo((k - 1) as nat);
        let h = (a - 1) / 2;
        assert(a == 2 * h + 1);
        assert(1 + a * g == 2 * (h * g) + (1 + g) && a * g >= 0) by (nonlinear_arith)
            requires
                a == 2 * h + 1,
                a > 0,
                g >= 0,
        ;
        vstd::arithmetic::div_mod::lemma_mod_multiples_vanish(h * g, 1 + g, 2);
        assert((1 + g) % 2 == k % 2) by (nonlinear_arith)
            requires
                g % 2 == (k - 1) % 2,
                k >= 1,
        ;
    }
}

/// Extending the sum by one term at the high end.
proof fn lemma_geo_tail(k: nat)
    ensures
        spec_geo(k + 1) == spec_geo(k) + vstd::arithmetic::power::pow(LCG_MULTIPLIER as int, k),
    decreases k,
{
    let a = LCG_MULTIPLIER as int;
    if k == 0 {
        vstd::arithmetic::power::lemma_pow0(a);
    } else {
        lemma_geo_tail((k - 1) as nat);
        vstd::arithmetic::power::lemma_pow1(a);
        vstd::arithmetic::power::lemma_pow_adds(a, 1, (k - 1) as nat);
        assert(spec_geo(k + 1) == 1 + a * spec_geo(k));
        assert(1 + a * (spec_geo((k - 1) as nat) + vstd::arithmetic::power::pow(
            a,
            (k - 1) as nat,
        )) == (1 + a * spec_geo((k - 1) as nat)) + a * vstd::arithmetic::power::pow(
            a,
            (k - 1) as nat,
        )) by (nonlinear_arith);
    }
}

/// Splitting the sum: the first b terms, then a more scaled past them.
proof fn lemma_geo_add(a_len: nat, b_len: nat)
    ensures
        spec_geo(a_len + b_len) == spec_geo(b_len) + vstd::arithmetic::power::pow(
            LCG_MULTIPLIER as int,
            b_len,
        ) * spec_geo(a_len),
    decreases a_len,
{
    let a = LCG_MULTIPLIER as int;
    let p = vstd::arithmetic::power::pow(a, b_len);
    if a_len == 0 {
        assert(p * 0 == 0) by (nonlinear_arith);
    } else {
        lemma_geo_add((a_len - 1) as nat, b_len);
        lemma_geo_tail(((a_len - 1) + b_len) as nat);
        vstd::arithmetic::power::lemma_pow_adds(a, (a_len - 1) as nat, b_len);
        let q = vstd::arithmetic::power::pow(a, (a_len - 1) as nat);
        assert(spec_geo((a_len - 1) as nat) * p + q * p == (spec_geo((a_len - 1) as nat) + q) * p)
            by (nonlinear_arith);
        assert(spec_geo(a_len) == spec_geo((a_len - 1) as nat) + q) by {
            lemma_geo_tail((a_len - 1) as nat);
        }
        assert(p * spec_geo(a_len) == spec_geo(a_len) * p) by (nonlinear_arith);
        assert(p * spec_geo((a_len - 1) as nat) == spec_geo((a_len - 1) as nat) * p) by (
        nonlinear_arith);
    }
}

/// Powers of an odd multiplier stay 1 modulo 4.
proof fn lemma_pow_mod4(m: nat)
    ensures
        vstd::arithmetic::power::pow(LCG_MULTIPLIER as int, m) % 4 == 1,
        vstd::arithmetic::power::pow(LCG_MULTIPLIER as int, m) >= 1,
    decreases m,
{
    let a = LCG_MULTIPLIER as int;
    if m == 0 {
        vstd::arithmetic::power::lemma_pow0(a);
    } else {
        lemma_pow_mod4((m - 1) as nat);
        let p = vstd::arithmetic::power::pow(a, (m - 1) as nat);
        vstd::arithmetic::power::lemma_pow1(a);
        vstd::arithmetic::power::lemma_pow_adds(a, (m - 1) as nat, 1);
        assert(vstd::arithmetic::power::pow(a, m) == p * a);
        let q = (a - 1) / 4;
        assert(a == 4 * q + 1);
        assert(p * a == 4 * (p * q) + p && p * a >= 1) by (nonlinear_arith)
            requires
                a == 4 * q + 1,
                a >= 1,
                p >= 1,
        ;
        vstd::arithmetic::div_mod::lemma_mod_multiples_vanish(p * q, p, 4);
        assert((p * a) % 4 == p % 4);
    }
}

/// The exact power of two in the geometric sum is the power of two in
/// its length: the sum over an odd length is odd, and doubling the
/// length multiplies the sum by twice an odd number.
proof fn lemma_geo_two_adic(k: nat)
    requires
        k >= 1,
    ensures
        spec_geo(k) % (vstd::arithmetic::power2::pow2((spec_v2(k) + 1) as nat) as int)
            == vstd::arithmetic::power2::pow2(spec_v2(k)) as int,
    decreases k,
{
    vstd::arithmetic::power2::lemma_pow2_pos(spec_v2(k));
    vstd::arithmetic::power2::lemma_pow2_pos((spec_v2(k) + 1) as nat);
    if k % 2 == 1 {
        lemma_geo_parity(k);
        assert(vstd::arithmetic::power2::pow2(0) == 1) by {
            vstd::arithmetic::power2::lemma2_to64();
        }
        assert(vstd::arithmetic::power2::pow2(1) == 2) by {
            vstd::arithmetic::power2::lemma2_to64();
        }
    } else {
        let m = k / 2;
        assert(m >= 1 && m + m == k);
        lemma_geo_two_adic(m);
        let j = spec_v2(m);
        assert(spec_v2(k) == j + 1);
        let a = LCG_MULTIPLIER as int;
        lemma_geo_add(m, m);
        lemma_pow_mod4(m);
        let p = vstd::arithmetic::power::pow(a, m);
        let g = spec_geo(m);
        lemma_geo_parity(m);
        // Decompose the half-sum and the doubling factor.
        let pj = vstd::arithmetic::power2::pow2(j) as int;
        let pj1 = vstd::arithmetic::power2::pow2((j + 1) as nat) as int;
        let pj2 = vstd::arithmetic::power2::pow2((j + 2) as nat) as int;
        assert(pj1 == 2 * pj) by {
            vstd::arithmetic::power2::lemma_pow2_adds(j, 1);
            vstd::arithmetic::power2::lemma2_to64();
        }
        assert(pj2 == 2 * pj1) by {
            vstd::arithmetic::power2::lemma_pow2_adds((j + 1) as nat, 1);
            vstd::arithmetic::power2::lemma2_to64();
        }
        vstd::arithmetic::power2::lemma_pow2_pos(j);
        vstd::arithmetic::div_mod::lemma_fundamental_div_mod(g, pj1);
        let t = g / pj1;
        assert(g == pj1 * t + pj);
        vstd::arithmetic::div_mod::lemma_fundamental_div_mod(1 + p, 4);
        let u = (1 + p) / 4;
        assert((1 + p) % 4 == 2) by (nonlinear_arith)
            requires
                p % 4 == 1,
                p >= 1,
        ;
        assert(1 + p == 4 * u + 2);
        // geo(k) = geo(m) * (1 + pow(a, m))
        assert(spec_geo(k) == g + p * g);
        assert(g + p * g == g * (1 + p)) by (nonlinear_arith);
        assert(g * (1 + p) == (pj1 * t + pj) * (4 * u + 2)) by (nonlinear_arith)
            requires
                g == pj1 * t + pj,
                1 + p == 4 * u + 2,
        ;
        let w = 2 * t * u + t + u;
        assert((pj1 * t + pj) * (4 * u + 2) == pj2 * w + pj1) by (nonlinear_arith)
            requires
                pj1 == 2 * pj,
                pj2 == 4 * pj,
                w == 2 * t * u + t + u,
        ;
        vstd::arithmetic::div_mod::lemma_mod_multiples_vanish(w, pj1, pj2);
        vstd::arithmetic::div_mod::lemma_small_mod(pj1 as nat, pj2 as nat);
    }
}


/// After k steps the seed is the start plus the geometric sum times a
/// fixed odd offset, reduced modulo 2^64.
proof fn lemma_lcg_closed_form(s: int, k: nat)
    requires
        0 <= s < two_pow_64(),
    ensures
        spec_lcg_iter(s, k) == (s + spec_geo(k) * ((LCG_MULTIPLIER as int - 1) * s + 1))
            % two_pow_64(),
    decreases k,
{
    reveal(spec_lcg);
    let m = two_pow_64();
    let a = LCG_MULTIPLIER as int;
    let d = (a - 1) * s + 1;
    if k == 0 {
        vstd::arithmetic::div_mod::lemma_small_mod(s as nat, m as nat);
        assert(spec_geo(0) * d == 0) by (nonlinear_arith);
    } else {
        lemma_lcg_closed_form(s, (k - 1) as nat);
        let g = spec_geo((k - 1) as nat);
        let x = s + g * d;
        assert(spec_lcg_iter(s, k) == ((x % m) * a + 1) % m);
        vstd::arithmetic::div_mod::lemma_mul_mod_noop_left(x, a, m);
        vstd::arithmetic::div_mod::lemma_add_mod_noop((x % m) * a, 1, m);
        vstd::arithmetic::div_mod::lemma_add_mod_noop(x * a, 1, m);
        assert(1int % m == 1);
        assert(((x % m) * a + 1) % m == (x * a + 1) % m);
        assert(x * a + 1 == s + spec_geo(k) * d) by (nonlinear_arith)
            requires
                x == s + g * d,
                d == (a - 1) * s + 1,
                spec_geo(k) == 1 + a * g,
        ;
    }
}

/// No count below 2^63 hides sixty-three factors of two.
proof fn lemma_v2_bound(n: nat)
    requires
        1 <= n,
    ensures
        vstd::arithmetic::power2::pow2(spec_v2(n)) <= n,
    decreases n,
{
    if n % 2 == 0 {
        lemma_v2_bound(n / 2);
        vstd::arithmetic::power2::lemma_pow2_adds(spec_v2((n / 2) as nat), 1);
        vstd::arithmetic::power2::lemma2_to64();
    } else {
        assert(vstd::arithmetic::power2::pow2(0) == 1) by {
            vstd::arithmetic::power2::lemma2_to64();
        }
    }
}

/// Dithering any non-empty run of fewer than 2^63 samples moves the
/// seed: each sample takes two generator steps; after 2n steps the seed
/// has moved by an odd multiple of the geometric sum, whose power of two
/// matches that of 2n and so stays short of 2^64.
pub proof fn lemma_dither_advances_seed_all(s: int, n: nat)
    requires
        0 <= s < two_pow_64(),
        1 <= n < 0x8000_0000_0000_0000,
    ensures
        spec_lcg_iter(s, 2 * n) != s,
{
    let m = two_pow_64();
    let a = LCG_MULTIPLIER as int;
    let d = (a - 1) * s + 1;
    let k: nat = 2 * n;
    let g = spec_geo(k);
    lemma_lcg_closed_form(s, k);
    let j = spec_v2(k);
    assert(j == spec_v2(n) + 1);
    lemma_v2_bound(n);
    assert(vstd::arithmetic::power2::pow2(spec_v2(n)) <= n);
    assert(spec_v2(n) < 63) by {
        if spec_v2(n) >= 63 {
            vstd::arithmetic::power2::lemma_pow2_adds(63, (spec_v2(n) - 63) as nat);
            vstd::arithmetic::power2::lemma2_to64_rest();
            vstd::arithmetic::power2::lemma_pow2_pos((spec_v2(n) - 63) as nat);
            assert(vstd::arithmetic::power2::pow2(spec_v2(n)) >= vstd::arithmetic::power2::pow2(
                63,
            )) by (nonlinear_arith)
                requires
                    vstd::arithmetic::power2::pow2(spec_v2(n)) == vstd::arithmetic::power2::pow2(63)
                        * vstd::arithmetic::power2::pow2((spec_v2(n) - 63) as nat),
                    vstd::arithmetic::power2::pow2((spec_v2(n) - 63) as nat) >= 1,
                    vstd::arithmetic::power2::pow2(63) >= 1,
            ;
            assert(vstd::arithmetic::power2::pow2(63) == 0x8000_0000_0000_0000) by {
                vstd::arithmetic::power2::lemma2_to64_rest();
            }
        }
    }
    lemma_geo_two_adic(k);
    let pj = vstd::arithmetic::power2::pow2(j) as int;
    let pj1 = vstd::arithmetic::power2::pow2((j + 1) as nat) as int;
    vstd::arithmetic::power2::lemma_pow2_pos(j);
    vstd::arithmetic::power2::lemma_pow2_pos((j + 1) as nat);
    assert(pj1 == 2 * pj) by {
        vstd::arithmetic::power2::lemma_pow2_adds(j, 1);
        vstd::arithmetic::power2::lemma2_to64();
    }
    // g = pj * (2t + 1) for some t: its power of two is exactly pj.
    vstd::arithmetic::div_mod::lemma_fundamental_div_mod(g, pj1);
    let t = g / pj1;
    assert(g == pj1 * t + pj);
    // d is odd.
    let h = (a - 1) / 2;
    assert(a - 1 == 2 * h);
    assert(d == 2 * (h * s) + 1) by (nonlinear_arith)
        requires
            d == 2 * h * s + 1,
    ;
    let ds = h * s;
    // g * d = pj1 * w + pj for an integer w: g * d mod pj1 is pj, not 0.
    assert(g * d == pj1 * (2 * t * ds + t) + pj * (2 * ds + 1)) by (nonlinear_arith)
        requires
            g == pj1 * t + pj,
            d == 2 * ds + 1,
            pj1 == 2 * pj,
    ;
    assert(pj * (2 * ds + 1) == pj1 * ds + pj) by (nonlinear_arith)
        requires
            pj1 == 2 * pj,
    ;
    let wsum = 2 * t * ds + t + ds;
    assert(g * d == pj1 * wsum + pj) by (nonlinear_arith)
        requires
            g * d == pj1 * (2 * t * ds + t) + pj1 * ds + pj,
            wsum == 2 * t * ds + t + ds,
    ;
    vstd::arithmetic::div_mod::lemma_mod_multiples_vanish(wsum, pj, pj1);
    vstd::arithmetic::div_mod::lemma_small_mod(pj as nat, pj1 as nat);
    assert((g * d) % pj1 == pj);
    // But if the seed came back, m would divide g * d, and pj1 divides m.
    if spec_lcg_iter(s, k) == s {
        vstd::arithmetic::div_mod::lemma_add_mod_noop(s, g * d, m);
        vstd::arithmetic::div_mod::lemma_small_mod(s as nat, m as nat);
        let r = (g * d) % m;
        assert(0 <= r < m);
        assert((s + r) % m == s);
        vstd::arithmetic::div_mod::lemma_fundamental_div_mod(s + r, m);
        let q = (s + r) / m;
        assert(s + r == m * q + s);
        assert(r == m * q) by (nonlinear_arith)
            requires
                s + r == m * q + s,
        ;
        assert(q == 0) by (nonlinear_arith)
            requires
                r == m * q,
                0 <= r < m,
                m > 0,
        ;
        assert((g * d) % m == 0);
        // pj1 divides m because j + 1 <= 64.
        assert(j + 1 <= 64);
        vstd::arithmetic::power2::lemma_pow2_adds((j + 1) as nat, (64 - (j + 1)) as nat);
        let rest = vstd::arithmetic::power2::pow2((64 - (j + 1)) as nat) as int;
        assert(m == pj1 * rest) by {
            assert(vstd::arithmetic::power2::pow2(64) == 0x1_0000_0000_0000_0000) by {
                vstd::arithmetic::power2::lemma2_to64_rest();
            }
        }
        vstd::arithmetic::div_mod::lemma_fundamental_div_mod(g * d, m);
        let qq = (g * d) / m;
        assert(g * d == m * qq);
        assert(g * d == pj1 * (rest * qq)) by (nonlinear_arith)
            requires
                g * d == m * qq,
                m == pj1 * rest,
        ;
        vstd::arithmetic::div_mod::lemma_mod_multiples_basic(rest * qq, pj1);
        assert((g * d) % pj1 == 0);
        assert(false);
    }
}

} // verus!
