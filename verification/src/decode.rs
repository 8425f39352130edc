use vstd::prelude::*;

verus! {

/// The sample formats a decoder can report, reduced to what the bit-depth
/// inference needs.
#[derive(Clone, Copy, PartialEq, Eq, Structural, Debug)]
pub enum SampleKind {
    U8,
    S8,
    U16,
    S16,
    U24,
    S24,
    U32,
    S32,
    F32,
    F64,
    Other,
}

/// Channel counts below one are treated as mono.
pub open spec fn spec_channels_floor(channels: int) -> int {
    if channels < 1 {
        1
    } else {
        channels
    }
}

/// What `apply_gapless_trim` returns: the input unchanged when it is
/// empty or nothing is trimmed; otherwise the frames between the decoder
/// delay and the trailing padding.
pub open spec fn spec_gapless_trim(s: Seq<i64>, channels: int, delay: int, padding: int) -> Seq<
    i64,
> {
    let ch = spec_channels_floor(channels);
    let fc = s.len() as int / ch;
    if s.len() == 0 {
        s
    } else if delay == 0 && padding == 0 {
        s
    } else {
        let start = if delay < fc {
            delay
        } else {
            fc
        };
        let end = if fc - padding > 0 {
            fc - padding
        } else {
            0
        };
        if end <= start {
            Seq::empty()
        } else {
            s.subrange(start * ch, end * ch)
        }
    }
}

/// Drops the decoder's leading delay frames and trailing padding frames
/// from an interleaved buffer.
pub fn apply_gapless_trim(samples: Vec<i64>, channels: usize, delay: usize, padding: usize) -> (r:
    Vec<i64>)
    ensures
        r@ == spec_gapless_trim(samples@, channels as int, delay as int, padding as int),
{
    if samples.len() == 0 {
        return samples;
    }
    let ch: usize = if channels < 1 {
        1
    } else {
        channels
    };
    let frame_count: usize = samples.len() / ch;
    if delay == 0 && padding == 0 {
        return samples;
    }
    let start_frame: usize = if delay < frame_count {
        delay
    } else {
        frame_count
    };
    let end_frame: usize = if frame_count > padding {
        frame_count - padding
    } else {
        0
    };
    if end_frame <= start_frame {
        let out: Vec<i64> = Vec::new();
        proof {
            assert(out@ =~= spec_gapless_trim(
                samples@,
                channels as int,
                delay as int,
                padding as int,
            ));
        }
        return out;
    }
    proof {
        assert(0 <= start_frame * ch <= end_frame * ch <= frame_count * ch <= samples@.len()) by (
        nonlinear_arith)
            requires
                0 <= start_frame <= end_frame <= frame_count,
                1 <= ch,
                frame_count == samples@.len() as int / (ch as int),
        ;
    }
    let start: usize = start_frame * ch;
    let end: usize = end_frame * ch;
    let mut out: Vec<i64> = Vec::new();
    let mut i: usize = start;
    while i < end
        invariant
            start <= i <= end,
            end <= samples@.len(),
            out@ =~= samples@.subrange(start as int, i as int),
        decreases end - i,
    {
        let v: i64 = samples[i];
        out.push(v);
        proof {
            assert(out@ =~= samples@.subrange(start as int, i + 1 as int));
        }
        i = i + 1;
    }
    out
}

/// Trimming nothing is the identity, and a real trim keeps exactly
/// max(0, frames - delay - padding) frames of `channels` samples each,
/// where frames counts whole frames of the input.
pub proof fn lemma_gapless_trim_len(s: Seq<i64>, channels: int, delay: int, padding: int)
    requires
        1 <= channels,
        0 <= delay,
        0 <= padding,
    ensures
        delay == 0 && padding == 0 ==> spec_gapless_trim(s, channels, delay, padding) == s,
        delay + padding > 0 ==> spec_gapless_trim(s, channels, delay, padding).len() == (if s.len()
            as int / channels - delay - padding > 0 {
            s.len() as int / channels - delay - padding
        } else {
            0
        }) * channels,
{
    let ch = spec_channels_floor(channels);
    let fc = s.len() as int / ch;
    assert(0 <= fc) by (nonlinear_arith)
        requires
            1 <= ch,
            0 <= s.len(),
            fc == s.len() as int / ch,
    ;
    if delay + padding > 0 && s.len() > 0 {
        let start = if delay < fc {
            delay
        } else {
            fc
        };
        let end = if fc - padding > 0 {
            fc - padding
        } else {
            0
        };
        if end <= start {
            assert((if fc - delay - padding > 0 {
                fc - delay - padding
            } else {
                0
            }) == 0);
        } else {
            assert(0 <= start * ch <= end * ch <= s.len()) by (nonlinear_arith)
                requires
                    0 <= start <= end <= fc,
                    1 <= ch,
                    fc == s.len() as int / ch,
            ;
            assert(spec_gapless_trim(s, channels, delay, padding).len() == end * ch - start * ch);
            assert(end * ch - start * ch == (end - start) * ch) by (nonlinear_arith);
            assert(end - start == fc - delay - padding);
        }
    }
    if delay + padding > 0 && s.len() == 0 {
        assert(fc == 0) by (nonlinear_arith)
            requires
                1 <= ch,
                s.len() == 0,
                fc == s.len() as int / ch,
        ;
    }
}

/// What `bit_depth_from_params` returns: explicit bit counts win, else
/// the width of the reported sample format, if any.
pub open spec fn spec_bit_depth(
    bits_per_sample: Option<u32>,
    bits_per_coded_sample: Option<u32>,
    kind: Option<SampleKind>,
) -> Option<u32> {
    if bits_per_sample is Some {
        bits_per_sample
    } else if bits_per_coded_sample is Some {
        bits_per_coded_sample
    } else {
        match kind {
            Some(SampleKind::U8) | Some(SampleKind::S8) => Some(8u32),
            Some(SampleKind::U16) | Some(SampleKind::S16) => Some(16u32),
            Some(SampleKind::U24) | Some(SampleKind::S24) => Some(24u32),
            Some(SampleKind::U32) | Some(SampleKind::S32) | Some(SampleKind::F32) => Some(32u32),
            Some(SampleKind::F64) => Some(64u32),
            _ => None,
        }
    }
}

/// Infers the source bit depth from the decoder's parameters: an explicit
/// count wins, else it follows from the sample format.
pub fn bit_depth_from_params(
    bits_per_sample: Option<u32>,
    bits_per_coded_sample: Option<u32>,
    kind: Option<SampleKind>,
) -> (r: Option<u32>)
    ensures
        r == spec_bit_depth(bits_per_sample, bits_per_coded_sample, kind),
{
    if let Some(b) = bits_per_sample {
        return Some(b);
    }
    if let Some(b) = bits_per_coded_sample {
        return Some(b);
    }
    match kind {
        Some(SampleKind::U8) | Some(SampleKind::S8) => Some(8),
        Some(SampleKind::U16) | Some(SampleKind::S16) => Some(16),
        Some(SampleKind::U24) | Some(SampleKind::S24) => Some(24),
        Some(SampleKind::U32) | Some(SampleKind::S32) | Some(SampleKind::F32) => Some(32),
        Some(SampleKind::F64) => Some(64),
        _ => None,
    }
}

} // verus!
