use vstd::prelude::*;
use crate::sample::{
    SAMPLE_ONE, spec_scale_sample, spec_soft_limit, scale_sample, soft_limit_sample, clamp_unit,
};
use crate::state::{EngineState, Mode, SPECTRUM_FFT_SIZE, spec_min_int};
use crate::ring::{SampleConsumer, try_pop_sample};
use crate::dither::{
    apply_tpdf_dither, apply_tpdf_dither_shaped, spec_effective_bits, spec_lcg_iter,
    spec_normalize_dither_bits, normalize_dither_bits, MAX_DITHER_CHANNELS,
};

verus! {

/// One sample of the render pipeline after the source: the volume gain,
/// then the soft limiter when it is enabled.
pub open spec fn spec_process_sample(
    x: int,
    volume: int,
    limiter_enabled: bool,
    threshold: int,
) -> int {
    let scaled = spec_scale_sample(x, volume);
    if limiter_enabled {
        spec_soft_limit(scaled, threshold)
    } else {
        scaled
    }
}

/// Sum of one interleaved frame across its channels.
pub open spec fn spec_frame_sum(buf: Seq<i64>, base: int, c: nat) -> int
    decreases c,
{
    if c == 0 {
        0
    } else {
        spec_frame_sum(buf, base, (c - 1) as nat) + buf[base + c - 1]
    }
}

/// One frame of the spectrum mirror: the average of its channels,
/// truncated toward zero.
pub open spec fn spec_downmix_frame(buf: Seq<i64>, ch: int, f: int) -> int {
    let s = spec_frame_sum(buf, f * ch, ch as nat);
    if s < 0 {
        -((-s) / ch)
    } else {
        s / ch
    }
}

/// Zeroes a buffer in place.
pub fn zero_fill(buffer: &mut Vec<i64>)
    ensures
        final(buffer)@.len() == old(buffer)@.len(),
        forall|i: int| 0 <= i < final(buffer)@.len() ==> #[trigger] final(buffer)@[i] == 0i64,
{
    let n: usize = buffer.len();
    let mut i: usize = 0;
    while i < n
        invariant
            0 <= i <= n,
            buffer@.len() == n,
            forall|j: int| 0 <= j < i ==> #[trigger] buffer@[j] == 0i64,
        decreases n - i,
    {
        buffer.set(i, 0);
        i = i + 1;
    }
}

/// Applies volume and, when enabled, the limiter to every sample.
fn process_buffer(buffer: &mut Vec<i64>, volume: i64, limiter_enabled: bool, threshold: i64)
    requires
        0 <= volume <= SAMPLE_ONE,
        forall|i: int|
            0 <= i < old(buffer)@.len() ==> -SAMPLE_ONE <= #[trigger] old(buffer)@[i] <= SAMPLE_ONE,
    ensures
        final(buffer)@.len() == old(buffer)@.len(),
        forall|i: int|
            0 <= i < final(buffer)@.len() ==> #[trigger] final(buffer)@[i] == spec_process_sample(
                old(buffer)@[i] as int,
                volume as int,
                limiter_enabled,
                threshold as int,
            ),
        forall|i: int|
            0 <= i < final(buffer)@.len() ==> -SAMPLE_ONE <= #[trigger] final(buffer)@[i]
                <= SAMPLE_ONE,
{
    let n: usize = buffer.len();
    let ghost input: Seq<i64> = buffer@;
    let mut i: usize = 0;
    while i < n
        invariant
            0 <= i <= n,
            buffer@.len() == n,
            input.len() == n,
            0 <= volume <= SAMPLE_ONE,
            forall|j: int| 0 <= j < n ==> -SAMPLE_ONE <= #[trigger] input[j] <= SAMPLE_ONE,
            forall|j: int| i <= j < n ==> #[trigger] buffer@[j] == input[j],
            forall|j: int|
                0 <= j < i ==> #[trigger] buffer@[j] == spec_process_sample(
                    input[j] as int,
                    volume as int,
                    limiter_enabled,
                    threshold as int,
                ) && -SAMPLE_ONE <= buffer@[j] <= SAMPLE_ONE,
        decreases n - i,
    {
        let x: i64 = buffer[i];
        let scaled: i64 = scale_sample(x, volume);
        let v: i64 = if limiter_enabled {
            let limited = soft_limit_sample(scaled, threshold);
            proof {
                crate::sample::lemma_soft_limit_properties(scaled as int, threshold as int);
            }
            limited
        } else {
            scaled
        };
        buffer.set(i, v);
        i = i + 1;
    }
}

/// Rewrites the spectrum mirror from a rendered buffer: each of the
/// first min(frames, mirror size) frames averaged across its channels,
/// the rest zeroed.
fn update_mirror(chunk: &mut Vec<i64>, buffer: &Vec<i64>, ch: usize)
    requires
        old(chunk)@.len() == SPECTRUM_FFT_SIZE,
        ch >= 1,
        forall|i: int|
            0 <= i < buffer@.len() ==> -SAMPLE_ONE <= #[trigger] buffer@[i] <= SAMPLE_ONE,
    ensures
        final(chunk)@.len() == SPECTRUM_FFT_SIZE,
        ({
            let copy_len = spec_min_int(
                buffer@.len() as int / (ch as int),
                SPECTRUM_FFT_SIZE as int,
            );
            &&& forall|f: int|
                0 <= f < copy_len ==> #[trigger] final(chunk)@[f] as int == spec_downmix_frame(
                    buffer@,
                    ch as int,
                    f,
                )
            &&& forall|f: int|
                copy_len <= f < SPECTRUM_FFT_SIZE ==> #[trigger] final(chunk)@[f] == 0i64
        }),
        forall|f: int|
            0 <= f < SPECTRUM_FFT_SIZE ==> -SAMPLE_ONE <= #[trigger] final(chunk)@[f] <= SAMPLE_ONE,
{
    let frames: usize = buffer.len() / ch;
    let copy_len: usize = if frames < SPECTRUM_FFT_SIZE {
        frames
    } else {
        SPECTRUM_FFT_SIZE
    };
    let mut f: usize = 0;
    while f < copy_len
        invariant
            0 <= f <= copy_len,
            chunk@.len() == SPECTRUM_FFT_SIZE,
            copy_len as int == spec_min_int(
                buffer@.len() as int / (ch as int),
                SPECTRUM_FFT_SIZE as int,
            ),
            copy_len as int <= buffer@.len() as int / (ch as int),
            ch >= 1,
            forall|i: int|
                0 <= i < buffer@.len() ==> -SAMPLE_ONE <= #[trigger] buffer@[i] <= SAMPLE_ONE,
            forall|g: int|
                0 <= g < f ==> #[trigger] chunk@[g] as int == spec_downmix_frame(
                    buffer@,
                    ch as int,
                    g,
                ) && -SAMPLE_ONE <= chunk@[g] <= SAMPLE_ONE,
        decreases copy_len - f,
    {
        let blen: usize = buffer.len();
        proof {
            assert((f + 1) * ch == f * ch + ch && 0 <= f * ch && (f + 1) * ch <= (blen as int / (
            ch as int)) * ch <= blen) by (nonlinear_arith)
                requires
                    0 <= f,
                    f + 1 <= blen as int / (ch as int),
                    ch >= 1,
                    0 <= blen,
            ;
        }
        let base: usize = f * ch;
        let mut sum: i128 = 0;
        let mut c: usize = 0;
        while c < ch
            invariant
                0 <= c <= ch,
                base == f * ch,
                blen == buffer@.len(),
                base + ch <= blen,
                forall|i: int|
                    0 <= i < buffer@.len() ==> -SAMPLE_ONE <= #[trigger] buffer@[i] <= SAMPLE_ONE,
                sum == spec_frame_sum(buffer@, base as int, c as nat),
                -(c as i128) * (SAMPLE_ONE as i128) <= sum <= (c as i128) * (SAMPLE_ONE as i128),
            decreases ch - c,
        {
            proof {
                assert(-(c + 1) * SAMPLE_ONE <= sum + buffer@[base + c] <= (c + 1) * SAMPLE_ONE)
                    by (nonlinear_arith)
                    requires
                        -(c as int) * SAMPLE_ONE <= sum <= (c as int) * SAMPLE_ONE,
                        -SAMPLE_ONE <= buffer@[base + c] <= SAMPLE_ONE,
                ;
            }
            sum = sum + (buffer[base + c] as i128);
            c = c + 1;
        }
        proof {
            assert(-(ch as int) * SAMPLE_ONE <= sum <= (ch as int) * SAMPLE_ONE);
            if sum < 0 {
                assert(0 <= (-(sum as int)) / (ch as int) <= SAMPLE_ONE) by (nonlinear_arith)
                    requires
                        0 < -(sum as int) <= (ch as int) * SAMPLE_ONE,
                        ch >= 1,
                ;
            } else {
                assert(0 <= (sum as int) / (ch as int) <= SAMPLE_ONE) by (nonlinear_arith)
                    requires
                        0 <= sum <= (ch as int) * SAMPLE_ONE,
                        ch >= 1,
                ;
            }
        }
        let avg: i128 = if sum < 0 {
            -((-sum) / (ch as i128))
        } else {
            sum / (ch as i128)
        };
        chunk.set(f, avg as i64);
        f = f + 1;
    }
    let mut g: usize = copy_len;
    while g < SPECTRUM_FFT_SIZE
        invariant
            copy_len <= g <= SPECTRUM_FFT_SIZE,
            chunk@.len() == SPECTRUM_FFT_SIZE,
            copy_len as int == spec_min_int(
                buffer@.len() as int / (ch as int),
                SPECTRUM_FFT_SIZE as int,
            ),
            ch >= 1,
            forall|t: int|
                0 <= t < copy_len ==> #[trigger] chunk@[t] as int == spec_downmix_frame(
                    buffer@,
                    ch as int,
                    t,
                ) && -SAMPLE_ONE <= chunk@[t] <= SAMPLE_ONE,
            forall|t: int| copy_len <= t < g ==> #[trigger] chunk@[t] == 0i64,
        decreases SPECTRUM_FFT_SIZE - g,
    {
        chunk.set(g, 0);
        g = g + 1;
    }
}

/// Pops up to one ring sample per buffer slot, clamped to unit range;
/// slots the ring cannot fill become silence. Returns how many samples
/// the ring yielded.
fn pop_into_buffer(cons: &mut SampleConsumer, buffer: &mut Vec<i64>) -> (consumed: usize)
    ensures
        final(buffer)@.len() == old(buffer)@.len(),
        consumed <= final(buffer)@.len(),
        forall|i: int|
            0 <= i < final(buffer)@.len() ==> -SAMPLE_ONE <= #[trigger] final(buffer)@[i]
                <= SAMPLE_ONE,
{
    let n: usize = buffer.len();
    let mut consumed: usize = 0;
    let mut i: usize = 0;
    while i < n
        invariant
            0 <= i <= n,
            buffer@.len() == n,
            consumed <= i,
            forall|j: int| 0 <= j < i ==> -SAMPLE_ONE <= #[trigger] buffer@[j] <= SAMPLE_ONE,
        decreases n - i,
    {
        match try_pop_sample(cons) {
            Some(v) => {
                buffer.set(i, clamp_unit(v));
                consumed = consumed + 1;
            },
            None => {
                buffer.set(i, 0);
            },
        }
        i = i + 1;
    }
    consumed
}

impl EngineState {
    /// Renders one device buffer from the engine, after the control ring
    /// has been drained. A silent transport zero-fills. File playback
    /// copies from the cursor, silences the tail and stops on
    /// exhaustion, advancing the cursor by the buffer's frame count
    /// (capped at the end). Stream and capture playback take what the
    /// ring yields, count an underrun when it runs short, and keep the
    /// buffered-frame and played-frame counters. Volume and the limiter
    /// shape every sample, and the spectrum mirror is rebuilt from the
    /// result. Returns how many samples came out of the ring.
    #[verifier::rlimit(100)]
    #[verifier::spinoff_prover]
    pub fn fill_output_buffer(&mut self, cons: &mut SampleConsumer, buffer: &mut Vec<i64>) -> (consumed: usize)
        requires
            old(self).wf(),
        ensures
            final(self).wf(),
            final(buffer)@.len() == old(buffer)@.len(),
            forall|i: int|
                0 <= i < final(buffer)@.len() ==> -SAMPLE_ONE <= #[trigger] final(buffer)@[i]
                    <= SAMPLE_ONE,
            (!old(self).is_playing || old(self).is_paused) ==> *final(self) == *old(self) && (
            forall|i: int| 0 <= i < final(buffer)@.len() ==> #[trigger] final(buffer)@[i] == 0i64)
                && consumed == 0,
            (old(self).is_playing && !old(self).is_paused && old(self).mode == Mode::File) ==> ({
                let ch = old(self).channels as int;
                let fc = old(buffer)@.len() as int / ch;
                let start = old(self).position as int * ch;
                let end = spec_min_int(start + fc * ch, old(self).data@.len() as int);
                let avail = end - start;
                &&& consumed == 0
                &&& (forall|i: int|
                    0 <= i < avail ==> #[trigger] final(buffer)@[i] as int == spec_process_sample(
                        old(self).data@[start + i] as int,
                        old(self).volume as int,
                        old(self).limiter_enabled,
                        old(self).limiter_threshold as int,
                    ))
                &&& (forall|i: int|
                    avail <= i < final(buffer)@.len() ==> #[trigger] final(buffer)@[i] == 0i64)
                &&& final(self).is_playing == (avail == old(buffer)@.len() as int)
                &&& final(self).position as int == spec_min_int(
                    old(self).position as int + fc,
                    old(self).spec_frames(),
                )
                &&& *final(self) == (EngineState {
                    is_playing: final(self).is_playing,
                    position: final(self).position,
                    last_output_chunk: final(self).last_output_chunk,
                    ..*old(self)
                })
            }),
            (old(self).is_playing && !old(self).is_paused && (old(self).mode == Mode::Stream || old(
                self,
            ).mode == Mode::Capture)) ==> ({
                let ch = old(self).channels as int;
                &&& consumed <= old(buffer)@.len()
                &&& final(self).buffered_frames as int == (if old(self).buffered_frames as int - (
                    consumed as int / ch) >= 0 {
                    old(self).buffered_frames as int - (consumed as int / ch)
                } else {
                    0
                })
                &&& final(self).underrun_count as int == crate::state::spec_saturate_u64(
                    old(self).underrun_count as int + (if (consumed as int) < old(
                        buffer,
                    )@.len() as int {
                        1int
                    } else {
                        0int
                    }),
                )
                &&& final(self).played_frames as int == crate::state::spec_saturate_u64(
                    old(self).played_frames as int + old(buffer)@.len() as int / ch,
                )
                &&& *final(self) == (EngineState {
                    buffered_frames: final(self).buffered_frames,
                    underrun_count: final(self).underrun_count,
                    played_frames: final(self).played_frames,
                    last_output_chunk: final(self).last_output_chunk,
                    ..*old(self)
                })
            }),
            (old(self).is_playing && !old(self).is_paused && old(self).mode == Mode::Idle) ==> (
            forall|i: int| 0 <= i < final(buffer)@.len() ==> #[trigger] final(buffer)@[i] == 0i64)
                && consumed == 0 && *final(self) == (EngineState {
                last_output_chunk: final(self).last_output_chunk,
                ..*old(self)
            }),
            (old(self).is_playing && !old(self).is_paused) ==> ({
                let copy_len = spec_min_int(
                    old(buffer)@.len() as int / (old(self).channels as int),
                    SPECTRUM_FFT_SIZE as int,
                );
                &&& (forall|f: int|
                    0 <= f < copy_len ==> #[trigger] final(self).last_output_chunk@[f] as int
                        == spec_downmix_frame(final(buffer)@, old(self).channels as int, f))
                &&& (forall|f: int|
                    copy_len <= f < SPECTRUM_FFT_SIZE
                        ==> #[trigger] final(self).last_output_chunk@[f] == 0i64)
            }),
    {
        if !self.is_playing || self.is_paused {
            zero_fill(buffer);
            return 0;
        }
        let mut consumed: usize = 0;
        let ch: usize = self.channels;
        if matches!(self.mode, Mode::File) {
            let fc: usize = buffer.len() / ch;
            let dl: usize = self.data.len();
            let bl: usize = buffer.len();
            let pos: usize = self.position;
            proof {
                assert(0 <= pos * ch <= (dl as int / (ch as int)) * ch <= dl) by (nonlinear_arith)
                    requires
                        0 <= pos <= dl as int / (ch as int),
                        0 <= dl,
                        ch >= 1,
                ;
                assert(0 <= fc * ch <= bl) by (nonlinear_arith)
                    requires
                        fc == bl as int / (ch as int),
                        ch >= 1,
                        0 <= bl,
                ;
            }
            let start: usize = self.position * ch;
            let want: usize = fc * ch;
            let end: usize = if want < self.data.len() - start {
                start + want
            } else {
                self.data.len()
            };
            let avail: usize = end - start;
            proof {
                assert(end as int == spec_min_int(
                    start as int + want as int,
                    self.data@.len() as int,
                ));
            }
            let mut i: usize = 0;
            while i < avail
                invariant
                    0 <= i <= avail,
                    avail <= buffer@.len(),
                    dl == self.data@.len(),
                    start + avail <= dl,
                    buffer@.len() == old(buffer)@.len(),
                    *self == *old(self),
                    forall|j: int|
                        0 <= j < i ==> #[trigger] buffer@[j] == self.data@[start + j],
                decreases avail - i,
            {
                let v: i64 = self.data[start + i];
                buffer.set(i, v);
                i = i + 1;
            }
            let mut z: usize = avail;
            while z < buffer.len()
                invariant
                    avail <= z <= buffer@.len(),
                    start + avail <= self.data@.len(),
                    buffer@.len() == old(buffer)@.len(),
                    *self == *old(self),
                    forall|j: int|
                        0 <= j < avail ==> #[trigger] buffer@[j] == self.data@[start + j],
                    forall|j: int| avail <= j < z ==> #[trigger] buffer@[j] == 0i64,
                decreases buffer@.len() - z,
            {
                buffer.set(z, 0);
                z = z + 1;
            }
            if avail < buffer.len() {
                self.is_playing = false;
            }
            let frames: usize = self.data.len() / ch;
            self.position = if fc < frames && self.position < frames - fc {
                self.position + fc
            } else {
                frames
            };
        } else if matches!(self.mode, Mode::Stream) || matches!(self.mode, Mode::Capture) {
            consumed = pop_into_buffer(cons, buffer);
            let dec: usize = consumed / ch;
            self.buffered_frames = if self.buffered_frames > dec {
                self.buffered_frames - dec
            } else {
                0
            };
            if consumed < buffer.len() && self.underrun_count < u64::MAX {
                self.underrun_count = self.underrun_count + 1;
            }
            let add: u64 = (buffer.len() / ch) as u64;
            self.played_frames = if self.played_frames <= u64::MAX - add {
                self.played_frames + add
            } else {
                u64::MAX
            };
        } else {
            zero_fill(buffer);
        }
        process_buffer(buffer, self.volume, self.limiter_enabled, self.limiter_threshold);
        update_mirror(&mut self.last_output_chunk, buffer, ch);
        consumed
    }
}

impl EngineState {
    /// The bit depth one dither pass works at: the configured depth
    /// normalized, then held below the device's target depth.
    pub open spec fn spec_dither_pass_bits(self, target_bits: int) -> int {
        let b = spec_normalize_dither_bits(self.dither_bits as int);
        if b < target_bits {
            b
        } else {
            target_bits
        }
    }

    /// Dithers a rendered buffer for an integer device format, when
    /// dithering is on: the shaped variants run their error-feedback
    /// pass, anything else runs plain triangular dither, and the seed
    /// and error memories move back into the state. With dithering off
    /// or the off type selected, nothing changes.
    #[verifier::rlimit(100)]
    #[verifier::spinoff_prover]
    pub fn apply_dither_if_needed(&mut self, buffer: &mut Vec<i64>, target_bits: u32)
        requires
            old(self).wf(),
            forall|i: int|
                0 <= i < old(buffer)@.len() ==> -SAMPLE_ONE <= #[trigger] old(buffer)@[i]
                    <= SAMPLE_ONE,
        ensures
            final(self).wf(),
            final(buffer)@.len() == old(buffer)@.len(),
            forall|i: int|
                0 <= i < final(buffer)@.len() ==> -SAMPLE_ONE <= #[trigger] final(buffer)@[i]
                    <= SAMPLE_ONE,
            (!old(self).dither_enabled || old(self).dither_type@ == "off"@) ==> *final(self)
                == *old(self) && final(buffer)@ == old(buffer)@,
            (old(self).dither_enabled && old(self).dither_type@ != "off"@)
                ==> final(self).dither_rng as int == spec_lcg_iter(
                old(self).dither_rng as int,
                (2 * old(buffer)@.len()) as nat,
            ) && *final(self) == (EngineState {
                dither_rng: final(self).dither_rng,
                dither_shape_err1: final(self).dither_shape_err1,
                dither_shape_err2: final(self).dither_shape_err2,
                ..*old(self)
            }),
            (old(self).dither_enabled && old(self).dither_type@ != "off"@
                && old(self).dither_type@ != "tpdf_ns1"@ && old(self).dither_type@ != "tpdf_ns2"@)
                ==> (forall|i: int|
                0 <= i < old(buffer)@.len() ==> #[trigger] final(buffer)@[i]
                    == crate::dither::spec_tpdf_sample_with(
                    old(buffer)@[i] as int,
                    spec_lcg_iter(old(self).dither_rng as int, (2 * i) as nat),
                    vstd::arithmetic::power2::pow2(
                        (spec_effective_bits(old(self).spec_dither_pass_bits(target_bits as int))
                            - 1) as nat,
                    ) as int,
                )) && final(self).dither_shape_err1@ == old(self).dither_shape_err1@
                && final(self).dither_shape_err2@ == old(self).dither_shape_err2@,
    {
        if !self.dither_enabled || crate::text::str_eq(self.dither_type.as_str(), "off") {
            return ;
        }
        let normalized: u32 = normalize_dither_bits(self.dither_bits);
        let effective_bits: u32 = if normalized < target_bits {
            normalized
        } else {
            target_bits
        };
        let mut seed: u64 = self.dither_rng;
        if crate::text::str_eq(self.dither_type.as_str(), "tpdf_ns1") {
            let mut err1: Vec<i64> = Vec::new();
            let mut err2: Vec<i64> = Vec::new();
            std::mem::swap(&mut err1, &mut self.dither_shape_err1);
            std::mem::swap(&mut err2, &mut self.dither_shape_err2);
            apply_tpdf_dither_shaped(
                buffer,
                effective_bits,
                self.channels,
                &mut seed,
                &mut err1,
                &mut err2,
                1,
            );
            self.dither_shape_err1 = err1;
            self.dither_shape_err2 = err2;
        } else if crate::text::str_eq(self.dither_type.as_str(), "tpdf_ns2") {
            let mut err1: Vec<i64> = Vec::new();
            let mut err2: Vec<i64> = Vec::new();
            std::mem::swap(&mut err1, &mut self.dither_shape_err1);
            std::mem::swap(&mut err2, &mut self.dither_shape_err2);
            apply_tpdf_dither_shaped(
                buffer,
                effective_bits,
                self.channels,
                &mut seed,
                &mut err1,
                &mut err2,
                2,
            );
            self.dither_shape_err1 = err1;
            self.dither_shape_err2 = err2;
        } else {
            apply_tpdf_dither(buffer, effective_bits, &mut seed);
        }
        self.dither_rng = seed;
    }
}

} // verus!
