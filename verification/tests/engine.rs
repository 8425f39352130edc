use ntmusic_engine::callback::zero_fill;
use ntmusic_engine::control::{
    control_push_index, drain_control_commands, ControlSlot, CONTROL_CMD_PAUSE, CONTROL_CMD_PLAY,
    CONTROL_CMD_STOP, CONTROL_CMD_VOLUME,
};
use ntmusic_engine::decode::{apply_gapless_trim, bit_depth_from_params, SampleKind};
use ntmusic_engine::dither::{
    apply_tpdf_dither, apply_tpdf_dither_shaped, normalize_dither_bits, normalize_dither_type,
};
use ntmusic_engine::media::{
    cover_extension, cover_hash_key, is_supported_audio_path, track_title_from_path,
};
use ntmusic_engine::commands::{extract_query, normalize_command_text, parse_command_text};
use ntmusic_engine::output::{
    available_frames, build_wave_format, channel_mask_for, choose_device_period,
    resolve_exclusive_mode, scratch_samples, select_output_config, ConfigRange, HostApi,
};
use ntmusic_engine::resample::{
    normalize_resampler_mode, normalize_resampler_quality, resample_len_ok, resample_passthrough,
    should_prefer_soxr, soxr_candidate_names, Platform,
};
use ntmusic_engine::ring::{new_sample_ring, push_samples, try_pop_sample, try_push_sample};
use ntmusic_engine::sample::{
    clamp_unit, quantize_to_step, soft_limit_sample, LIMITER_THRESHOLD_MIN, SAMPLE_ONE,
};
use ntmusic_engine::seqlock::{accept_snapshot, write_spectrum, SpectrumRegion};
use ntmusic_engine::state::{initial_state, LibraryTrack, Mode, StreamStatus};
use rubato::audioadapter::Adapter;
use rubato::audioadapter_buffers::direct::InterleavedSlice;
use rubato::{
    Async, FixedAsync, Resampler, SincInterpolationParameters, SincInterpolationType,
    WindowFunction,
};

fn track(path: &str) -> LibraryTrack {
    LibraryTrack {
        path: path.to_string(),
        title: None,
        artist: None,
        album: None,
        duration_ms: 0,
    }
}

#[test]
fn gapless_trim_noop() {
    let samples = vec![429_496_730_i64, -858_993_459, 1_288_490_189, -1_717_986_918];
    let trimmed = apply_gapless_trim(samples.clone(), 2, 0, 0);
    assert_eq!(trimmed, samples);
}

#[test]
fn gapless_trim_with_padding() {
    // 2 channels, 4 frames => 8 samples.
    let samples = (0..8).map(|v| v as i64).collect::<Vec<i64>>();
    // Trim 1 leading frame and 1 trailing frame => keep frames 1..3 (2 frames).
    let trimmed = apply_gapless_trim(samples, 2, 1, 1);
    assert_eq!(trimmed, vec![2, 3, 4, 5]);
}

#[test]
fn gapless_trim_all() {
    let samples = vec![0_i64; 6];
    let trimmed = apply_gapless_trim(samples, 2, 2, 2);
    assert!(trimmed.is_empty());
}

#[test]
fn queue_add_sets_index_for_current_path() {
    let mut state = initial_state(7, false);
    state.file_path = Some("b.flac".to_string());
    let count = state.queue_add(vec![track("a.flac"), track("b.flac")], true);
    assert_eq!(count, 2);
    assert_eq!(state.queue_index, Some(1));
}

#[test]
fn queue_add_clears_index_when_missing() {
    let mut state = initial_state(7, false);
    state.file_path = Some("missing.flac".to_string());
    let count = state.queue_add(vec![track("a.flac")], true);
    assert_eq!(count, 1);
    assert_eq!(state.queue_index, None);
}

#[test]
fn normalize_dither_type_accepts_shaped_variants() {
    assert_eq!(normalize_dither_type("tpdf_ns1"), "tpdf_ns1");
    assert_eq!(normalize_dither_type("TPDF_NS2"), "tpdf_ns2");
    assert_eq!(normalize_dither_type("off"), "off");
    assert_eq!(normalize_dither_type("unknown"), "tpdf");
}

#[test]
fn quantize_to_step_aligns_to_lsb() {
    let step = SAMPLE_ONE / 32768;
    let out = quantize_to_step(530_242_843, step);
    assert_eq!(out % step, 0);
    assert!(out <= SAMPLE_ONE && out >= -SAMPLE_ONE);
}

#[test]
fn shaped_dither_advances_seed_and_bounds() {
    let mut data = vec![0_i64; 64];
    let mut seed = 1_u64;
    let mut err1 = vec![0_i64; 8];
    let mut err2 = vec![0_i64; 8];
    apply_tpdf_dither_shaped(&mut data, 16, 2, &mut seed, &mut err1, &mut err2, 1);
    assert_ne!(seed, 1_u64);
    assert!(data.iter().all(|v| *v <= SAMPLE_ONE && *v >= -SAMPLE_ONE));
}

#[test]
fn plain_dither_is_deterministic_and_bounded() {
    let input: Vec<i64> = (0..256).map(|v| (v as i64) * 10_000_000 - 1_000_000_000).collect();
    let mut a = input.clone();
    let mut b = input.clone();
    let mut seed_a = 42_u64;
    let mut seed_b = 42_u64;
    apply_tpdf_dither(&mut a, 16, &mut seed_a);
    apply_tpdf_dither(&mut b, 16, &mut seed_b);
    assert_eq!(a, b);
    assert_eq!(seed_a, seed_b);
    assert_ne!(seed_a, 42);
    assert!(a.iter().all(|v| *v <= SAMPLE_ONE && *v >= -SAMPLE_ONE));
}

#[test]
fn quantize_is_idempotent() {
    let step = SAMPLE_ONE / 256;
    for x in [-SAMPLE_ONE - 55, -123_456_789, -1, 0, 1, 98_765_432_1, SAMPLE_ONE + 99] {
        let once = quantize_to_step(x, step);
        let twice = quantize_to_step(once, step);
        assert_eq!(once, twice);
        assert!(once.abs() <= SAMPLE_ONE);
    }
}

#[test]
fn limiter_identity_below_threshold() {
    let threshold = SAMPLE_ONE / 10 * 9;
    for x in [0, 1, -1, threshold, -threshold, threshold / 2] {
        assert_eq!(soft_limit_sample(x, threshold), x);
    }
}

#[test]
fn limiter_compresses_loud_samples() {
    let threshold = SAMPLE_ONE / 10 * 9;
    let over = SAMPLE_ONE;
    let out = soft_limit_sample(over, threshold);
    assert!(out > threshold);
    assert!(out <= SAMPLE_ONE);
    let beyond = soft_limit_sample(3 * SAMPLE_ONE, threshold);
    assert!(beyond <= SAMPLE_ONE);
    assert!(beyond < 3 * SAMPLE_ONE);
    let negative = soft_limit_sample(-3 * SAMPLE_ONE, threshold);
    assert!(negative < 0 && negative >= -SAMPLE_ONE);
    assert!(LIMITER_THRESHOLD_MIN > 0);
}

#[test]
fn clamp_unit_bounds() {
    assert_eq!(clamp_unit(SAMPLE_ONE + 5), SAMPLE_ONE);
    assert_eq!(clamp_unit(-SAMPLE_ONE - 5), -SAMPLE_ONE);
    assert_eq!(clamp_unit(17), 17);
}

#[test]
fn resampler_passthrough_on_equal_rates_and_empty_input() {
    let data: Vec<i64> = vec![1, 2, 3, 4];
    let same = resample_passthrough(&data, 2, 44100, 44100);
    assert_eq!(same, Some(data.clone()));
    let empty: Vec<i64> = Vec::new();
    assert_eq!(resample_passthrough(&empty, 2, 44100, 48000), Some(Vec::new()));
    assert_eq!(resample_passthrough(&data, 2, 44100, 48000), None);
}

#[test]
fn resampler_length_bound_on_sinc_backend() {
    let frames = 44100_usize;
    let wave: Vec<f64> = (0..frames)
        .map(|i| (2.0 * std::f64::consts::PI * 1000.0 * (i as f64) / 44100.0).sin())
        .collect();
    let params = SincInterpolationParameters {
        sinc_len: 64,
        f_cutoff: None,
        interpolation: SincInterpolationType::Linear,
        oversampling_factor: 64,
        window: WindowFunction::Hann,
    };
    let mut resampler =
        Async::<f64>::new_sinc(48000.0 / 44100.0, 2.0, &params, frames, 1, FixedAsync::Input)
            .unwrap();
    let input = InterleavedSlice::new(&wave, 1, frames).unwrap();
    let out = resampler.process(&input, None).unwrap();
    let out_frames = out.frames() as u64;
    assert!(resample_len_ok(frames as u64, 44100, 48000, out_frames));
    assert!(out_frames >= 47900 && out_frames <= 48100);
}

#[test]
fn backend_selection_rules() {
    assert!(should_prefer_soxr("soxr", "low", false));
    assert!(!should_prefer_soxr("rubato", "uhq", true));
    assert!(!should_prefer_soxr("auto", "hq", false));
    assert!(!should_prefer_soxr("auto", "low", true));
    assert!(!should_prefer_soxr("auto", "std", true));
    assert!(should_prefer_soxr("auto", "hq", true));
    assert!(should_prefer_soxr("auto", "uhq", true));
}

#[test]
fn normalizers_fold_unknown_values() {
    assert_eq!(normalize_resampler_mode("SoXr"), "soxr");
    assert_eq!(normalize_resampler_mode("weird"), "auto");
    assert_eq!(normalize_resampler_quality("UHQ"), "uhq");
    assert_eq!(normalize_resampler_quality("weird"), "hq");
    assert_eq!(normalize_dither_bits(16), 16);
    assert_eq!(normalize_dither_bits(20), 24);
}

#[test]
fn soxr_names_per_platform() {
    assert_eq!(soxr_candidate_names(Platform::Windows), vec!["soxr.dll", "libsoxr.dll"]);
    assert_eq!(soxr_candidate_names(Platform::MacOs), vec!["libsoxr.dylib"]);
    assert_eq!(soxr_candidate_names(Platform::Other), vec!["libsoxr.so", "libsoxr.so.0"]);
}

#[test]
fn ring_preserves_fifo_order() {
    let (mut prod, mut cons) = new_sample_ring(1024);
    let mut next_out: i64 = 0;
    let mut next_in: i64 = 0;
    let total: i64 = 1_000_000;
    while next_out < total {
        while next_in < total && try_push_sample(&mut prod, next_in) {
            next_in += 1;
        }
        match try_pop_sample(&mut cons) {
            Some(v) => {
                assert_eq!(v, next_out);
                next_out += 1;
            }
            None => panic!("ring empty before all values came back"),
        }
    }
}

#[test]
fn ring_reports_back_pressure() {
    let (mut prod, _cons) = new_sample_ring(4);
    let pushed = push_samples(&mut prod, &vec![1, 2, 3, 4, 5, 6]);
    assert_eq!(pushed, 4);
}

#[test]
fn control_ring_burst_applies_in_order() {
    let mut state = initial_state(3, false);
    state.install_decoded("song.wav".to_string(), vec![0_i64; 96000], 48000, 2, 48000, Some(16));
    state.play();
    let volume_point_three: i64 = 1_288_490_189;
    let mut slots = vec![ControlSlot { tag: 0, value: 0 }; 8];
    slots[0] = ControlSlot { tag: CONTROL_CMD_PLAY, value: 0 };
    slots[1] = ControlSlot { tag: CONTROL_CMD_VOLUME, value: volume_point_three };
    slots[2] = ControlSlot { tag: CONTROL_CMD_PAUSE, value: 0 };
    slots[3] = ControlSlot { tag: CONTROL_CMD_STOP, value: 0 };
    let new_read = drain_control_commands(&mut state, &slots, 4, 0, 8);
    assert_eq!(new_read, 4);
    assert!(!state.is_playing);
    assert!(!state.is_paused);
    assert_eq!(state.position, 0);
    assert_eq!(state.volume, volume_point_three);
}

#[test]
fn control_ring_rejects_when_full() {
    assert_eq!(control_push_index(0, 1, 8), None);
    assert_eq!(control_push_index(0, 2, 8), Some(1));
    assert_eq!(control_push_index(7, 0, 8), None);
}

#[test]
fn load_play_exhaust_stops_at_end() {
    let mut state = initial_state(11, false);
    // One second of stereo audio at 48 kHz.
    let data = vec![SAMPLE_ONE / 4; 48000 * 2];
    state.install_decoded("sine.wav".to_string(), data, 48000, 2, 48000, Some(16));
    assert_eq!(state.mode, Mode::File);
    assert_eq!(state.sample_rate, 48000);
    assert_eq!(state.duration_ms, 1000);
    state.play();
    assert!(state.is_playing);
    let (_prod, mut cons) = new_sample_ring(16);
    let mut buffer = vec![0_i64; 1024 * 2];
    let mut guard = 0;
    while state.is_playing {
        state.fill_output_buffer(&mut cons, &mut buffer);
        guard += 1;
        assert!(guard < 100);
    }
    assert_eq!(state.position, 48000);
}

#[test]
fn callback_scales_by_volume() {
    let mut state = initial_state(13, false);
    let data = vec![SAMPLE_ONE; 512 * 2];
    state.install_decoded("full.wav".to_string(), data, 48000, 2, 48000, None);
    state.set_volume(SAMPLE_ONE / 2);
    state.play();
    let (_prod, mut cons) = new_sample_ring(16);
    let mut buffer = vec![0_i64; 64];
    state.fill_output_buffer(&mut cons, &mut buffer);
    for v in &buffer {
        assert_eq!(*v, SAMPLE_ONE / 2);
    }
}

#[test]
fn callback_limits_hot_signal() {
    let mut state = initial_state(17, false);
    let data = vec![SAMPLE_ONE; 512 * 2];
    state.install_decoded("full.wav".to_string(), data, 48000, 2, 48000, None);
    let threshold = SAMPLE_ONE / 10 * 9;
    state.configure_optimizations(
        None,
        None,
        None,
        None,
        None,
        None,
        Some(true),
        Some(threshold),
        false,
    );
    state.play();
    let (_prod, mut cons) = new_sample_ring(16);
    let mut buffer = vec![0_i64; 64];
    state.fill_output_buffer(&mut cons, &mut buffer);
    let first = buffer[0];
    assert!(first > state.limiter_threshold);
    assert!(first <= SAMPLE_ONE);
    for v in &buffer {
        assert_eq!(*v, first);
    }
}

#[test]
fn silent_transport_outputs_zeros() {
    let mut state = initial_state(19, false);
    let (_prod, mut cons) = new_sample_ring(16);
    let mut buffer = vec![5_i64; 32];
    state.fill_output_buffer(&mut cons, &mut buffer);
    assert!(buffer.iter().all(|v| *v == 0));
    let mut scratch = vec![9_i64; 8];
    zero_fill(&mut scratch);
    assert_eq!(scratch, vec![0; 8]);
}

#[test]
fn stream_callback_counts_underruns() {
    let mut state = initial_state(23, false);
    state.set_stream_mode("http://example/stream".to_string());
    assert_eq!(state.stream_status, StreamStatus::Starting);
    state.play();
    let (mut prod, mut cons) = new_sample_ring(64);
    assert_eq!(push_samples(&mut prod, &vec![SAMPLE_ONE / 8; 16]), 16);
    state.buffered_frames = 8;
    let mut buffer = vec![0_i64; 32];
    let consumed = state.fill_output_buffer(&mut cons, &mut buffer);
    assert_eq!(consumed, 16);
    assert_eq!(state.underrun_count, 1);
    assert_eq!(state.buffered_frames, 0);
    assert_eq!(state.played_frames, 16);
    for i in 0..16 {
        assert_eq!(buffer[i], SAMPLE_ONE / 8);
    }
    for i in 16..32 {
        assert_eq!(buffer[i], 0);
    }
}

#[test]
fn exclusive_mode_downgrades_off_platform() {
    assert!(!resolve_exclusive_mode(true, Some(HostApi::Other), HostApi::Other, false));
    assert!(!resolve_exclusive_mode(true, Some(HostApi::Wasapi), HostApi::Wasapi, false));
    assert!(resolve_exclusive_mode(true, Some(HostApi::Wasapi), HostApi::Wasapi, true));
    assert!(resolve_exclusive_mode(true, Some(HostApi::Asio), HostApi::Other, false));
    assert!(!resolve_exclusive_mode(false, Some(HostApi::Asio), HostApi::Other, true));
    assert!(resolve_exclusive_mode(true, None, HostApi::Wasapi, true));
    assert!(!resolve_exclusive_mode(true, None, HostApi::Other, true));
}

#[test]
fn output_config_picks_first_match() {
    let ranges = vec![
        ConfigRange { channels: 1, min_rate: 8000, max_rate: 192000 },
        ConfigRange { channels: 2, min_rate: 44100, max_rate: 44100 },
        ConfigRange { channels: 2, min_rate: 8000, max_rate: 192000 },
    ];
    assert_eq!(select_output_config(&ranges, 2, 48000), Some(2));
    assert_eq!(select_output_config(&ranges, 2, 44100), Some(1));
    assert_eq!(select_output_config(&ranges, 6, 48000), None);
}

#[test]
fn wave_format_fields() {
    let f = build_wave_format(2, 48000);
    assert_eq!(f.format_tag, 0xFFFE);
    assert_eq!(f.block_align, 8);
    assert_eq!(f.avg_bytes_per_sec, 384_000);
    assert_eq!(f.channel_mask, 0x3);
    assert_eq!(channel_mask_for(6), 0x3F);
    assert_eq!(channel_mask_for(3), 0);
    assert_eq!(choose_device_period(0, 0), 10000);
    assert_eq!(choose_device_period(0, 5000), 5000);
    assert_eq!(choose_device_period(100_000, 5000), 100_000);
    assert_eq!(available_frames(480, 100), 380);
    assert_eq!(available_frames(100, 480), 0);
    assert_eq!(scratch_samples(380, 2), 760);
}

#[test]
fn seqlock_write_keeps_counter_even() {
    let mut region = SpectrumRegion { seq: 0, data: vec![0_u32; 4] };
    write_spectrum(&mut region, &vec![7, 8]);
    assert_eq!(region.seq, 2);
    assert_eq!(region.data, vec![7, 8, 0, 0]);
    assert!(accept_snapshot(region.seq, region.seq));
    assert!(!accept_snapshot(1, 1));
    assert!(!accept_snapshot(2, 4));
}

#[test]
fn queue_next_walks_queue_in_order() {
    let mut state = initial_state(29, false);
    state.queue_add(vec![track("a.flac"), track("b.flac")], true);
    let first = state.queue_next_pick().expect("first track");
    assert_eq!(first.path, "a.flac");
    assert_eq!(state.queue_index, Some(0));
    let second = state.queue_next_pick().expect("second track");
    assert_eq!(second.path, "b.flac");
    assert_eq!(state.queue_index, Some(1));
    assert!(state.queue_next_pick().is_none());
}

#[test]
fn seek_works_only_inside_file() {
    let mut state = initial_state(31, false);
    assert!(!state.seek_to_frame(0));
    state.install_decoded("a.wav".to_string(), vec![0_i64; 200], 48000, 2, 48000, None);
    assert!(state.seek_to_frame(99));
    assert_eq!(state.position, 99);
    assert!(!state.seek_to_frame(100));
    assert_eq!(state.position, 99);
}

#[test]
fn command_text_parses_actions_and_query() {
    let cmd = parse_command_text("  Play test song  ").expect("parsed");
    assert_eq!(cmd.action, "play");
    assert_eq!(cmd.raw, "Play test song");
    assert_eq!(cmd.query.as_deref(), Some("test song"));
    let pause = parse_command_text("PAUSE now").expect("parsed");
    assert_eq!(pause.action, "pause");
    assert!(parse_command_text("   ").is_none());
    let unknown = parse_command_text("dance").expect("parsed");
    assert_eq!(unknown.action, "unknown");
    assert_eq!(normalize_command_text("  Mixed CASE  "), "mixed case");
    assert_eq!(extract_query("play abba", "play"), Some("abba".to_string()));
    assert_eq!(extract_query("play   ", "play"), None);
    assert_eq!(extract_query("stop", "play"), None);
}

#[test]
fn command_text_recognizes_native_keywords() {
    let cmd = parse_command_text("播放 星晴").expect("parsed");
    assert_eq!(cmd.action, "play");
    assert_eq!(cmd.query.as_deref(), Some("星晴"));
    let stop = parse_command_text("停止").expect("parsed");
    assert_eq!(stop.action, "stop");
}

#[test]
fn media_helpers_follow_paths() {
    assert!(is_supported_audio_path("music/track.FLAC"));
    assert!(is_supported_audio_path("c:\\music\\track.mp3"));
    assert!(!is_supported_audio_path("music/readme.txt"));
    assert!(!is_supported_audio_path("music/noext"));
    assert_eq!(track_title_from_path("music/song.mp3"), Some("song".to_string()));
    assert_eq!(track_title_from_path("music/"), None);
    assert_eq!(cover_extension("image/jpeg"), "jpg");
    assert_eq!(cover_extension("image/png"), "png");
    assert_eq!(cover_extension("application/x"), "bin");
    assert_eq!(cover_hash_key("a/b.mp3"), cover_hash_key("a/b.mp3"));
    assert_ne!(cover_hash_key("a/b.mp3"), cover_hash_key("a/c.mp3"));
}

#[test]
fn bit_depth_inference() {
    assert_eq!(bit_depth_from_params(Some(20), None, None), Some(20));
    assert_eq!(bit_depth_from_params(None, Some(12), None), Some(12));
    assert_eq!(bit_depth_from_params(None, None, Some(SampleKind::S16)), Some(16));
    assert_eq!(bit_depth_from_params(None, None, Some(SampleKind::F64)), Some(64));
    assert_eq!(bit_depth_from_params(None, None, Some(SampleKind::Other)), None);
    assert_eq!(bit_depth_from_params(None, None, None), None);
}

#[test]
fn dither_options_interplay() {
    let mut state = initial_state(37, false);
    state.configure_optimizations(
        Some(false),
        None,
        None,
        None,
        None,
        None,
        None,
        None,
        false,
    );
    assert!(!state.dither_enabled);
    assert_eq!(state.dither_type, "off");
    state.configure_optimizations(
        Some(true),
        None,
        Some(16),
        None,
        Some("SOXR".to_string()),
        Some("LOW".to_string()),
        None,
        None,
        true,
    );
    assert!(state.dither_enabled);
    assert_eq!(state.dither_type, "tpdf");
    assert_eq!(state.dither_bits, 16);
    assert_eq!(state.resampler_mode, "soxr");
    assert_eq!(state.resampler_quality, "low");
    assert!(state.soxr_available);
}

#[test]
fn state_view_mirrors_fields() {
    let mut state = initial_state(41, false);
    state.install_decoded("v.wav".to_string(), vec![0_i64; 96000], 48000, 2, 48000, Some(24));
    state.play();
    let view = state.build_state_view();
    assert!(view.is_playing);
    assert_eq!(view.mode, Mode::File);
    assert_eq!(view.sample_rate, 48000);
    assert_eq!(view.duration_ms, 1000);
    assert_eq!(view.file_path.as_deref(), Some("v.wav"));
    assert_eq!(view.source_bit_depth, Some(24));
    let info = state.track_info();
    assert_eq!(info.title.as_deref(), Some("v"));
    let pos = state.position_info();
    assert_eq!(pos.current_ms, 0);
    assert_eq!(pos.duration_ms, 1000);
    assert_eq!(pos.permille, 0);
}
