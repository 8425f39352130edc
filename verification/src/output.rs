use vstd::prelude::*;

verus! {

/// The host audio interface family a device belongs to, as far as
/// exclusive-mode eligibility is concerned.
#[derive(Clone, Copy, PartialEq, Eq, Structural, Debug)]
pub enum HostApi {
    Wasapi,
    Asio,
    Other,
}

/// Whether an exclusive-mode request is honored: never when not
/// requested; for a selected device by its interface (a low-latency
/// driver always, the platform mixer bypass only on its platform,
/// anything else never); without a selected device only on that platform
/// with an eligible default interface.
pub open spec fn spec_resolve_exclusive_mode(
    requested: bool,
    device_api: Option<HostApi>,
    default_api: HostApi,
    on_windows: bool,
) -> bool {
    if !requested {
        false
    } else {
        match device_api {
            Some(HostApi::Asio) => true,
            Some(HostApi::Wasapi) => on_windows,
            Some(HostApi::Other) => false,
            None => on_windows && (default_api == HostApi::Asio || default_api == HostApi::Wasapi),
        }
    }
}

/// Decides whether a requested exclusive mode is kept or silently
/// downgraded to shared output.
pub fn resolve_exclusive_mode(
    requested: bool,
    device_api: Option<HostApi>,
    default_api: HostApi,
    on_windows: bool,
) -> (r: bool)
    ensures
        r == spec_resolve_exclusive_mode(requested, device_api, default_api, on_windows),
{
    if !requested {
        return false;
    }
    match device_api {
        Some(HostApi::Asio) => true,
        Some(HostApi::Wasapi) => on_windows,
        Some(HostApi::Other) => false,
        None => on_windows && (matches!(default_api, HostApi::Asio) || matches!(
            default_api,
            HostApi::Wasapi,
        )),
    }
}

/// One supported output configuration range of a device.
#[derive(Clone, Copy, PartialEq, Eq, Structural, Debug)]
pub struct ConfigRange {
    pub channels: u16,
    pub min_rate: u32,
    pub max_rate: u32,
}

/// Whether a range carries the wanted channel count and rate.
pub open spec fn spec_range_matches(r: ConfigRange, channels: u16, rate: u32) -> bool {
    r.channels == channels && r.min_rate <= rate <= r.max_rate
}

/// Picks the first supported range that carries the engine's channel
/// count and desired rate; none means the device default must be used
/// and the file buffer resampled to it.
pub fn select_output_config(ranges: &Vec<ConfigRange>, channels: u16, rate: u32) -> (r: Option<
    usize,
>)
    ensures
        match r {
            Some(i) => i < ranges@.len() && spec_range_matches(ranges@[i as int], channels, rate)
                && forall|j: int|
                0 <= j < i ==> !spec_range_matches(#[trigger] ranges@[j], channels, rate),
            None => forall|j: int|
                0 <= j < ranges@.len() ==> !spec_range_matches(
                    #[trigger] ranges@[j],
                    channels,
                    rate,
                ),
        },
{
    let mut i: usize = 0;
    while i < ranges.len()
        invariant
            0 <= i <= ranges@.len(),
            forall|j: int| 0 <= j < i ==> !spec_range_matches(#[trigger] ranges@[j], channels, rate),
        decreases ranges@.len() - i,
    {
        let r: ConfigRange = ranges[i];
        if r.channels == channels && r.min_rate <= rate && rate <= r.max_rate {
            return Some(i);
        }
        i = i + 1;
    }
    None
}

/// The speaker-position mask for a channel count: mono uses the front
/// center, stereo the front pair, six and eight channels their standard
/// layouts, anything else no explicit positions.
pub open spec fn spec_channel_mask(channels: u16) -> u32 {
    if channels == 1 {
        0x4u32
    } else if channels == 2 {
        0x3u32
    } else if channels == 6 {
        0x3Fu32
    } else if channels == 8 {
        0x63Fu32
    } else {
        0u32
    }
}

/// Builds the speaker-position mask of an exclusive-mode format.
pub fn channel_mask_for(channels: u16) -> (r: u32)
    ensures
        r == spec_channel_mask(channels),
{
    match channels {
        1 => 0x4,
        2 => 0x3,
        6 => 0x3F,
        8 => 0x63F,
        _ => 0,
    }
}

/// The fixed-point fields of the 32-bit-float extensible wave format the
/// exclusive renderer negotiates.
#[derive(Clone, Copy, PartialEq, Eq, Structural, Debug)]
pub struct WaveFormat {
    pub format_tag: u16,
    pub channels: u16,
    pub samples_per_sec: u32,
    pub bits_per_sample: u16,
    pub block_align: u16,
    pub avg_bytes_per_sec: u32,
    pub valid_bits_per_sample: u16,
    pub channel_mask: u32,
}

/// A 16-bit product saturating at its limit.
pub open spec fn spec_saturate_u16(v: int) -> int {
    if v > 0xFFFF {
        0xFFFF
    } else if v < 0 {
        0
    } else {
        v
    }
}

/// A 32-bit product saturating at its limit.
pub open spec fn spec_sat_u32(v: int) -> int {
    if v > 0xFFFF_FFFF {
        0xFFFF_FFFF
    } else if v < 0 {
        0
    } else {
        v
    }
}

/// Builds the exclusive-mode wave format: 32-bit float samples, a block
/// of four bytes per channel, the byte rate following from the sample
/// rate, and the mask from the channel count.
pub fn build_wave_format(channels: u16, sample_rate: u32) -> (r: WaveFormat)
    ensures
        r.format_tag == 0xFFFE,
        r.channels == channels,
        r.samples_per_sec == sample_rate,
        r.bits_per_sample == 32,
        r.block_align as int == spec_saturate_u16(channels as int * 4),
        r.avg_bytes_per_sec as int == spec_sat_u32(sample_rate as int * (spec_saturate_u16(
            channels as int * 4,
        ))),
        r.valid_bits_per_sample == 32,
        r.channel_mask == spec_channel_mask(channels),
{
    let block_align: u16 = if channels > 0x3FFF {
        0xFFFF
    } else {
        channels * 4
    };
    proof {
        assert(0 <= (sample_rate as int) * (block_align as int) <= 0xFFFF_FFFF * 0xFFFF) by (
        nonlinear_arith)
            requires
                0 <= sample_rate <= 0xFFFF_FFFF,
                0 <= block_align <= 0xFFFF,
        ;
    }
    let wide: u64 = (sample_rate as u64) * (block_align as u64);
    let avg: u32 = if wide > 0xFFFF_FFFFu64 {
        u32::MAX
    } else {
        wide as u32
    };
    WaveFormat {
        format_tag: 0xFFFE,
        channels,
        samples_per_sec: sample_rate,
        bits_per_sample: 32,
        block_align,
        avg_bytes_per_sec: avg,
        valid_bits_per_sample: 32,
        channel_mask: channel_mask_for(channels),
    }
}

/// The device period the exclusive renderer adopts: the default period
/// when the device reports one, else the minimum period, else a fixed
/// fallback.
pub open spec fn spec_device_period(default_period: i64, min_period: i64) -> i64 {
    if default_period > 0 {
        default_period
    } else if min_period > 0 {
        min_period
    } else {
        10000i64
    }
}

/// Picks the device period for the exclusive renderer.
pub fn choose_device_period(default_period: i64, min_period: i64) -> (r: i64)
    ensures
        r == spec_device_period(default_period, min_period),
        r > 0,
{
    if default_period > 0 {
        default_period
    } else if min_period > 0 {
        min_period
    } else {
        10000
    }
}

/// Frames the exclusive renderer may write this wakeup: the buffer size
/// less what the device still holds.
pub fn available_frames(buffer_frames: u32, padding: u32) -> (r: u32)
    ensures
        r as int == if buffer_frames >= padding {
            buffer_frames - padding
        } else {
            0
        },
{
    if buffer_frames >= padding {
        buffer_frames - padding
    } else {
        0
    }
}

/// Samples a scratch buffer needs for the frames the device granted.
pub fn scratch_samples(frames: u32, channels: u16) -> (r: u64)
    ensures
        r == frames as u64 * channels as u64,
{
    proof {
        assert((frames as int) * (channels as int) <= 0xFFFF_FFFF * 0xFFFF) by (nonlinear_arith)
            requires
                frames <= 0xFFFF_FFFF,
                channels <= 0xFFFF,
        ;
        assert(0 <= (frames as int) * (channels as int)) by (nonlinear_arith)
            requires
                0 <= frames,
                0 <= channels,
        ;
    }
    (frames as u64) * (channels as u64)
}

} // verus!
