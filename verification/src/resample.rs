use vstd::prelude::*;
use crate::text::{spec_lower_seq, eq_lowered, str_eq};

verus! {

/// Interpolation used by the polyphase sinc backend.
#[derive(Clone, Copy, PartialEq, Eq, Structural, Debug)]
pub enum SincInterpolation {
    Linear,
    Cubic,
}

/// Window function used by the polyphase sinc backend.
#[derive(Clone, Copy, PartialEq, Eq, Structural, Debug)]
pub enum WindowKind {
    Hann,
    Blackman,
    BlackmanHarris2,
}

/// Parameters of the polyphase sinc backend for one quality preset. The
/// cutoff is kept in hundredths of the Nyquist frequency.
#[derive(Clone, Copy, PartialEq, Eq, Structural, Debug)]
pub struct SincParams {
    pub sinc_len: u32,
    pub cutoff_hundredths: u32,
    pub interpolation: SincInterpolation,
    pub oversampling_factor: u32,
    pub window: WindowKind,
}

/// What `normalize_resampler_mode` returns: a recognized mode lowered,
/// anything else mapped to automatic selection.
#[verifier::opaque]
pub open spec fn spec_normalize_resampler_mode(v: Seq<char>) -> Seq<char> {
    let n = spec_lower_seq(v);
    if n == "auto"@ || n == "rubato"@ || n == "soxr"@ {
        n
    } else {
        "auto"@
    }
}

/// Folds a requested resampler mode onto the recognized set.
pub fn normalize_resampler_mode(value: &str) -> (r: String)
    ensures
        r@ == spec_normalize_resampler_mode(value@),
{
    proof {
        reveal(spec_normalize_resampler_mode);
    }
    if eq_lowered(value, "auto") {
        String::from_str("auto")
    } else if eq_lowered(value, "rubato") {
        String::from_str("rubato")
    } else if eq_lowered(value, "soxr") {
        String::from_str("soxr")
    } else {
        String::from_str("auto")
    }
}

/// What `normalize_resampler_quality` returns: a recognized preset
/// lowered, anything else mapped to the high-quality preset.
#[verifier::opaque]
pub open spec fn spec_normalize_resampler_quality(v: Seq<char>) -> Seq<char> {
    let n = spec_lower_seq(v);
    if n == "low"@ || n == "std"@ || n == "hq"@ || n == "uhq"@ {
        n
    } else {
        "hq"@
    }
}

/// Folds a requested resampler quality onto the recognized presets.
pub fn normalize_resampler_quality(value: &str) -> (r: String)
    ensures
        r@ == spec_normalize_resampler_quality(value@),
{
    proof {
        reveal(spec_normalize_resampler_quality);
    }
    if eq_lowered(value, "low") {
        String::from_str("low")
    } else if eq_lowered(value, "std") {
        String::from_str("std")
    } else if eq_lowered(value, "hq") {
        String::from_str("hq")
    } else if eq_lowered(value, "uhq") {
        String::from_str("uhq")
    } else {
        String::from_str("hq")
    }
}

/// Backend choice: an explicit mode wins; in automatic mode the
/// high-quality library is preferred only when it is present and a
/// high-quality preset is selected.
pub open spec fn spec_should_prefer_soxr(
    mode: Seq<char>,
    quality: Seq<char>,
    soxr_available: bool,
) -> bool {
    if mode == "soxr"@ {
        true
    } else if mode == "rubato"@ {
        false
    } else if !soxr_available {
        false
    } else {
        !(quality == "low"@ || quality == "std"@)
    }
}

/// Decides whether the high-quality library backend should handle a
/// conversion.
pub fn should_prefer_soxr(resampler_mode: &str, quality: &str, soxr_available: bool) -> (r: bool)
    ensures
        r == spec_should_prefer_soxr(resampler_mode@, quality@, soxr_available),
{
    if str_eq(resampler_mode, "soxr") {
        return true;
    }
    if str_eq(resampler_mode, "rubato") {
        return false;
    }
    if !soxr_available {
        return false;
    }
    !(str_eq(quality, "low") || str_eq(quality, "std"))
}

/// The sinc parameters of one quality preset: the cutoff drops when
/// downsampling; length, interpolation and window grow with quality.
pub open spec fn spec_sinc_params(quality: Seq<char>, downsampling: bool) -> SincParams {
    let cutoff: u32 = if downsampling {
        90
    } else {
        95
    };
    if quality == "low"@ {
        SincParams {
            sinc_len: 64,
            cutoff_hundredths: cutoff,
            interpolation: SincInterpolation::Linear,
            oversampling_factor: 64,
            window: WindowKind::Hann,
        }
    } else if quality == "std"@ {
        SincParams {
            sinc_len: 128,
            cutoff_hundredths: cutoff,
            interpolation: SincInterpolation::Linear,
            oversampling_factor: 128,
            window: WindowKind::Blackman,
        }
    } else if quality == "hq"@ {
        SincParams {
            sinc_len: 256,
            cutoff_hundredths: cutoff,
            interpolation: SincInterpolation::Linear,
            oversampling_factor: 256,
            window: WindowKind::BlackmanHarris2,
        }
    } else {
        SincParams {
            sinc_len: 512,
            cutoff_hundredths: cutoff,
            interpolation: SincInterpolation::Cubic,
            oversampling_factor: 512,
            window: WindowKind::BlackmanHarris2,
        }
    }
}

/// Picks the sinc parameters for a conversion; a target rate below the
/// source rate counts as downsampling.
pub fn get_sinc_params(quality: &str, from_rate: u32, to_rate: u32) -> (r: SincParams)
    ensures
        r == spec_sinc_params(quality@, to_rate < from_rate),
{
    let cutoff: u32 = if to_rate < from_rate {
        90
    } else {
        95
    };
    if str_eq(quality, "low") {
        SincParams {
            sinc_len: 64,
            cutoff_hundredths: cutoff,
            interpolation: SincInterpolation::Linear,
            oversampling_factor: 64,
            window: WindowKind::Hann,
        }
    } else if str_eq(quality, "std") {
        SincParams {
            sinc_len: 128,
            cutoff_hundredths: cutoff,
            interpolation: SincInterpolation::Linear,
            oversampling_factor: 128,
            window: WindowKind::Blackman,
        }
    } else if str_eq(quality, "hq") {
        SincParams {
            sinc_len: 256,
            cutoff_hundredths: cutoff,
            interpolation: SincInterpolation::Linear,
            oversampling_factor: 256,
            window: WindowKind::BlackmanHarris2,
        }
    } else {
        SincParams {
            sinc_len: 512,
            cutoff_hundredths: cutoff,
            interpolation: SincInterpolation::Cubic,
            oversampling_factor: 512,
            window: WindowKind::BlackmanHarris2,
        }
    }
}

/// The trivial conversions a resampler answers by itself: degenerate
/// arguments and equal rates return the input unchanged, and an input
/// shorter than one frame returns silence.
pub open spec fn spec_resample_passthrough(
    data: Seq<i64>,
    channels: int,
    from_rate: int,
    to_rate: int,
) -> Option<Seq<i64>> {
    if data.len() == 0 || channels == 0 || from_rate == 0 || to_rate == 0 {
        Some(data)
    } else if from_rate == to_rate {
        Some(data)
    } else if data.len() < channels {
        Some(Seq::empty())
    } else {
        None
    }
}

/// Answers the conversions that need no backend: equal rates, degenerate
/// arguments, or input shorter than one frame. A result of nothing means
/// a real rate conversion is required.
pub fn resample_passthrough(data: &Vec<i64>, channels: usize, from_rate: u32, to_rate: u32) -> (r:
    Option<Vec<i64>>)
    ensures
        match r {
            Some(out) => spec_resample_passthrough(
                data@,
                channels as int,
                from_rate as int,
                to_rate as int,
            ) == Some(out@),
            None => spec_resample_passthrough(
                data@,
                channels as int,
                from_rate as int,
                to_rate as int,
            ) is None,
        },
{
    if data.len() == 0 || channels == 0 || from_rate == 0 || to_rate == 0 {
        return Some(data.clone());
    }
    if from_rate == to_rate {
        return Some(data.clone());
    }
    if data.len() < channels {
        let out: Vec<i64> = Vec::new();
        proof {
            assert(out@ =~= Seq::<i64>::empty());
        }
        return Some(out);
    }
    None
}

/// Frames a conversion of `in_frames` frames should produce:
/// ceil(in_frames * to_rate / from_rate).
pub open spec fn spec_expected_out_frames(in_frames: int, from_rate: int, to_rate: int) -> int {
    (in_frames * to_rate + from_rate - 1) / from_rate
}

/// Whether an output frame count is within the accepted tolerance of
/// sixty-four frames around the exact conversion ratio.
pub open spec fn spec_resample_len_ok(
    in_frames: int,
    from_rate: int,
    to_rate: int,
    out_frames: int,
) -> bool {
    let expected = spec_expected_out_frames(in_frames, from_rate, to_rate);
    expected - 64 <= out_frames <= expected + 64
}

/// Checks a backend's output length against the conversion ratio: the
/// frame count must lie within sixty-four frames of
/// ceil(in_frames * to_rate / from_rate).
pub fn resample_len_ok(in_frames: u64, from_rate: u32, to_rate: u32, out_frames: u64) -> (r: bool)
    requires
        from_rate > 0,
    ensures
        r == spec_resample_len_ok(
            in_frames as int,
            from_rate as int,
            to_rate as int,
            out_frames as int,
        ),
{
    proof {
        assert(0 <= (in_frames as int) * (to_rate as int) <= 0xFFFF_FFFF_FFFF_FFFF * 0x1_0000_0000)
            by (nonlinear_arith)
            requires
                0 <= in_frames <= 0xFFFF_FFFF_FFFF_FFFF,
                0 <= to_rate <= 0xFFFF_FFFF,
        ;
    }
    let num: u128 = (in_frames as u128) * (to_rate as u128) + (from_rate as u128) - 1;
    let expected: u128 = num / (from_rate as u128);
    proof {
        assert(num == in_frames * to_rate + from_rate - 1) by (nonlinear_arith)
            requires
                num == (in_frames as int) * (to_rate as int) + from_rate - 1,
        ;
        assert(0 <= (num as int) / (from_rate as int) <= num) by (nonlinear_arith)
            requires
                from_rate >= 1,
                0 <= num,
        ;
    }
    (out_frames as u128) + 64 >= expected && (out_frames as u128) <= expected + 64
}

/// Which platform family the engine is running on, as far as shared
/// library names are concerned.
#[derive(Clone, Copy, PartialEq, Eq, Structural, Debug)]
pub enum Platform {
    Windows,
    MacOs,
    Other,
}

/// The shared-library file names tried for the high-quality resampler on
/// each platform.
pub open spec fn spec_soxr_candidate_names(platform: Platform) -> Seq<Seq<char>> {
    match platform {
        Platform::Windows => seq!["soxr.dll"@, "libsoxr.dll"@],
        Platform::MacOs => seq!["libsoxr.dylib"@],
        Platform::Other => seq!["libsoxr.so"@, "libsoxr.so.0"@],
    }
}

/// Lists the shared-library file names under which the high-quality
/// resampler may be found on the given platform.
pub fn soxr_candidate_names(platform: Platform) -> (r: Vec<String>)
    ensures
        r@.map_values(|s: String| s@) == spec_soxr_candidate_names(platform),
{
    let mut out: Vec<String> = Vec::new();
    match platform {
        Platform::Windows => {
            out.push(String::from_str("soxr.dll"));
            out.push(String::from_str("libsoxr.dll"));
        },
        Platform::MacOs => {
            out.push(String::from_str("libsoxr.dylib"));
        },
        Platform::Other => {
            out.push(String::from_str("libsoxr.so"));
            out.push(String::from_str("libsoxr.so.0"));
        },
    }
    proof {
        assert(out@.map_values(|s: String| s@) =~= spec_soxr_candidate_names(platform));
    }
    out
}

/// Whether any candidate of the high-quality resampler could be loaded:
/// the engine keeps the first success.
pub fn detect_soxr_available(candidate_loads: &Vec<bool>) -> (r: bool)
    ensures
        r == exists|i: int| 0 <= i < candidate_loads@.len() && candidate_loads@[i],
{
    let mut i: usize = 0;
    while i < candidate_loads.len()
        invariant
            0 <= i <= candidate_loads@.len(),
            forall|j: int| 0 <= j < i ==> !candidate_loads@[j],
        decreases candidate_loads@.len() - i,
    {
        if candidate_loads[i] {
            return true;
        }
        i = i + 1;
    }
    false
}

} // verus!
