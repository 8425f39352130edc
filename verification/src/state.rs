use vstd::prelude::*;
use crate::sample::{SAMPLE_ONE, LIMITER_THRESHOLD_MIN, normalize_limiter_threshold,
    spec_normalize_limiter_threshold};
use crate::text::{spec_lower_seq, to_lower_string, contains_sub, spec_seq_contains};
use crate::dither::{MAX_DITHER_CHANNELS, spec_normalize_dither_type, normalize_dither_type,
    spec_normalize_dither_bits, normalize_dither_bits};
use crate::resample::{spec_normalize_resampler_mode, normalize_resampler_mode,
    spec_normalize_resampler_quality, normalize_resampler_quality};

verus! {

/// Samples the callback mirrors for the spectrum analyzer.
pub const SPECTRUM_FFT_SIZE: usize = 2048;

/// What the engine is currently playing from.
#[derive(Clone, Copy, PartialEq, Eq, Structural, Debug)]
pub enum Mode {
    Idle,
    File,
    Stream,
    Capture,
}

/// Lifecycle of the external stream or capture source.
#[derive(Clone, Copy, PartialEq, Eq, Structural, Debug)]
pub enum StreamStatus {
    Idle,
    Starting,
    Running,
    Stopped,
    Error,
}

/// The label the control surface uses for a mode.
pub fn mode_str(mode: Mode) -> (r: &'static str)
    ensures
        mode == Mode::Idle ==> r@ == "idle"@,
        mode == Mode::File ==> r@ == "file"@,
        mode == Mode::Stream ==> r@ == "stream"@,
        mode == Mode::Capture ==> r@ == "capture"@,
{
    match mode {
        Mode::Idle => "idle",
        Mode::File => "file",
        Mode::Stream => "stream",
        Mode::Capture => "capture",
    }
}

/// The label the control surface uses for a stream status.
pub fn stream_status_str(status: StreamStatus) -> (r: &'static str)
    ensures
        status == StreamStatus::Idle ==> r@ == "idle"@,
        status == StreamStatus::Starting ==> r@ == "starting"@,
        status == StreamStatus::Running ==> r@ == "running"@,
        status == StreamStatus::Stopped ==> r@ == "stopped"@,
        status == StreamStatus::Error ==> r@ == "error"@,
{
    match status {
        StreamStatus::Idle => "idle",
        StreamStatus::Starting => "starting",
        StreamStatus::Running => "running",
        StreamStatus::Stopped => "stopped",
        StreamStatus::Error => "error",
    }
}

/// One track of the library or the queue. Durations are kept in whole
/// milliseconds.
pub struct LibraryTrack {
    pub path: String,
    pub title: Option<String>,
    pub artist: Option<String>,
    pub album: Option<String>,
    pub duration_ms: u64,
}

/// The mathematical content of a track.
pub ghost struct TrackV {
    pub path: Seq<char>,
    pub title: Option<Seq<char>>,
    pub artist: Option<Seq<char>>,
    pub album: Option<Seq<char>>,
    pub duration_ms: u64,
}

/// The content of an optional string.
pub open spec fn opt_view(o: Option<String>) -> Option<Seq<char>> {
    match o {
        Some(s) => Some(s@),
        None => None,
    }
}

impl View for LibraryTrack {
    type V = TrackV;

    open spec fn view(&self) -> TrackV {
        TrackV {
            path: self.path@,
            title: opt_view(self.title),
            artist: opt_view(self.artist),
            album: opt_view(self.album),
            duration_ms: self.duration_ms,
        }
    }
}

/// The contents of a whole track list.
pub open spec fn tracks_view(q: Seq<LibraryTrack>) -> Seq<TrackV> {
    q.map_values(|t: LibraryTrack| t@)
}

/// Copies one track; the copy holds the same strings.
pub fn clone_track(t: &LibraryTrack) -> (r: LibraryTrack)
    ensures
        r@ == t@,
{
    LibraryTrack {
        path: t.path.clone(),
        title: match &t.title {
            Some(s) => Some(s.clone()),
            None => None,
        },
        artist: match &t.artist {
            Some(s) => Some(s.clone()),
            None => None,
        },
        album: match &t.album {
            Some(s) => Some(s.clone()),
            None => None,
        },
        duration_ms: t.duration_ms,
    }
}

/// One equalizer band: its label and its gain in thousandths of a
/// decibel.
pub struct EqBand {
    pub name: String,
    pub gain_milli_db: i64,
}

/// Whether a track matches a free-text query: the lowered query occurs in
/// the lowered title, artist, album or path.
pub open spec fn spec_track_matches(t: TrackV, query: Seq<char>) -> bool {
    let q = spec_lower_seq(query);
    ||| (t.title is Some && spec_seq_contains(spec_lower_seq(t.title->0), q))
    ||| (t.artist is Some && spec_seq_contains(spec_lower_seq(t.artist->0), q))
    ||| (t.album is Some && spec_seq_contains(spec_lower_seq(t.album->0), q))
    ||| spec_seq_contains(spec_lower_seq(t.path), q)
}

/// Tests a track against a free-text query, case-insensitively, over its
/// title, artist, album and path.
pub fn track_matches_query(track: &LibraryTrack, query: &str) -> (r: bool)
    ensures
        r == spec_track_matches(track@, query@),
{
    let q = to_lower_string(query);
    let qs = q.as_str();
    if let Some(title) = &track.title {
        let h = to_lower_string(title.as_str());
        if contains_sub(h.as_str(), qs) {
            return true;
        }
    }
    if let Some(artist) = &track.artist {
        let h = to_lower_string(artist.as_str());
        if contains_sub(h.as_str(), qs) {
            return true;
        }
    }
    if let Some(album) = &track.album {
        let h = to_lower_string(album.as_str());
        if contains_sub(h.as_str(), qs) {
            return true;
        }
    }
    let h = to_lower_string(track.path.as_str());
    contains_sub(h.as_str(), qs)
}

/// The canonical mutable model of playback: transport, the decoded file
/// buffer, configuration, the stream source, and the queue. Samples,
/// volumes and thresholds are fixed point with `SAMPLE_ONE` as 1.0.
pub struct EngineState {
    pub is_playing: bool,
    pub is_paused: bool,
    pub mode: Mode,
    pub file_path: Option<String>,
    pub data: Vec<i64>,
    pub channels: usize,
    pub sample_rate: u32,
    pub source_channels: usize,
    pub source_sample_rate: u32,
    pub source_bit_depth: Option<u32>,
    pub position: usize,
    pub played_frames: u64,
    pub duration_ms: u64,
    pub volume: i64,
    pub device_id: Option<usize>,
    pub exclusive_mode: bool,
    pub eq_enabled: bool,
    pub eq_type: String,
    pub eq_bands: Vec<EqBand>,
    pub dither_enabled: bool,
    pub dither_type: String,
    pub dither_bits: u32,
    pub replaygain_enabled: bool,
    pub resampler_mode: String,
    pub resampler_quality: String,
    pub soxr_available: bool,
    pub limiter_enabled: bool,
    pub limiter_threshold: i64,
    pub target_samplerate: Option<u32>,
    pub stream_url: Option<String>,
    pub stream_status: StreamStatus,
    pub stream_error: Option<String>,
    pub buffered_frames: usize,
    pub buffer_max_ms: u32,
    pub underrun_count: u64,
    pub library: Vec<LibraryTrack>,
    pub queue: Vec<LibraryTrack>,
    pub queue_index: Option<usize>,
    pub last_output_chunk: Vec<i64>,
    pub dither_rng: u64,
    pub dither_shape_err1: Vec<i64>,
    pub dither_shape_err2: Vec<i64>,
    pub spectrum_ws_enabled: bool,
}

impl EngineState {
    /// Well-formedness: the file buffer holds whole frames of unit-range
    /// samples, the cursor stays inside it, gains and thresholds stay in
    /// their ranges, the error memories and the spectrum mirror have
    /// their fixed sizes, and the queue index points into the queue.
    pub open spec fn wf(self) -> bool {
        &&& 1 <= self.channels
        &&& self.data@.len() as int % (self.channels as int) == 0
        &&& self.position as int <= self.data@.len() as int / (self.channels as int)
        &&& forall|i: int|
            0 <= i < self.data@.len() ==> -SAMPLE_ONE <= #[trigger] self.data@[i] <= SAMPLE_ONE
        &&& 0 <= self.volume <= SAMPLE_ONE
        &&& LIMITER_THRESHOLD_MIN <= self.limiter_threshold <= SAMPLE_ONE
        &&& self.dither_shape_err1@.len() == MAX_DITHER_CHANNELS
        &&& self.dither_shape_err2@.len() == MAX_DITHER_CHANNELS
        &&& forall|c: int|
            0 <= c < MAX_DITHER_CHANNELS ==> -2 * SAMPLE_ONE <= #[trigger] self.dither_shape_err1@[c]
                <= 2 * SAMPLE_ONE
        &&& forall|c: int|
            0 <= c < MAX_DITHER_CHANNELS ==> -2 * SAMPLE_ONE <= #[trigger] self.dither_shape_err2@[c]
                <= 2 * SAMPLE_ONE
        &&& self.last_output_chunk@.len() == SPECTRUM_FFT_SIZE
        &&& (match self.queue_index {
            Some(i) => i < self.queue@.len(),
            None => true,
        })
    }

    /// Whole frames the file buffer holds.
    pub open spec fn spec_frames(self) -> int {
        self.data@.len() as int / (self.channels as int)
    }

    /// Starts playback: playing, not paused; nothing else moves.
    pub fn play(&mut self)
        requires
            old(self).wf(),
        ensures
            final(self).wf(),
            *final(self) == (EngineState { is_playing: true, is_paused: false, ..*old(self) }),
    {
        self.is_playing = true;
        self.is_paused = false;
    }

    /// Pauses playback; nothing else moves.
    pub fn pause(&mut self)
        requires
            old(self).wf(),
        ensures
            final(self).wf(),
            *final(self) == (EngineState { is_paused: true, ..*old(self) }),
    {
        self.is_paused = true;
    }

    /// Stops playback: transport cleared, cursor and counters zeroed,
    /// back to idle; the buffers and configuration stay.
    pub fn stop(&mut self)
        requires
            old(self).wf(),
        ensures
            final(self).wf(),
            *final(self) == (EngineState {
                is_playing: false,
                is_paused: false,
                position: 0,
                played_frames: 0,
                mode: Mode::Idle,
                buffered_frames: 0,
                ..*old(self)
            }),
    {
        self.is_playing = false;
        self.is_paused = false;
        self.position = 0;
        self.played_frames = 0;
        self.mode = Mode::Idle;
        self.buffered_frames = 0;
    }

    /// Seeks the file cursor to a frame: succeeds exactly when a file is
    /// loaded and the frame lies strictly inside the buffer; on failure
    /// nothing changes.
    pub fn seek_to_frame(&mut self, frame: usize) -> (ok: bool)
        requires
            old(self).wf(),
        ensures
            final(self).wf(),
            ok == (old(self).mode == Mode::File && (frame as int) < old(self).spec_frames()),
            ok ==> *final(self) == (EngineState { position: frame, ..*old(self) }),
            !ok ==> *final(self) == *old(self),
    {
        if !matches!(self.mode, Mode::File) {
            return false;
        }
        let ch: usize = self.channels;
        let frames: usize = self.data.len() / ch;
        if frame < frames {
            self.position = frame;
            true
        } else {
            false
        }
    }

    /// Sets the playback volume, clamped into [0, 1].
    pub fn set_volume(&mut self, volume: i64)
        requires
            old(self).wf(),
        ensures
            final(self).wf(),
            *final(self) == (EngineState {
                volume: if volume < 0 {
                    0i64
                } else if volume > SAMPLE_ONE {
                    SAMPLE_ONE
                } else {
                    volume
                },
                ..*old(self)
            }),
    {
        self.volume = if volume < 0 {
            0
        } else if volume > SAMPLE_ONE {
            SAMPLE_ONE
        } else {
            volume
        };
    }

    /// Clears the error memories of the noise shaper.
    pub fn reset_dither_shape_state(&mut self)
        requires
            old(self).wf(),
        ensures
            final(self).wf(),
            final(self).dither_shape_err1@ =~= spec_zero_errs(),
            final(self).dither_shape_err2@ =~= spec_zero_errs(),
            *final(self) == (EngineState {
                dither_shape_err1: final(self).dither_shape_err1,
                dither_shape_err2: final(self).dither_shape_err2,
                ..*old(self)
            }),
    {
        let zeros = zero_err_vec();
        let zeros2 = zero_err_vec();
        self.dither_shape_err1 = zeros;
        self.dither_shape_err2 = zeros2;
    }
}

/// Index of the first queue entry whose path equals `path`, if any.
pub open spec fn spec_first_path_index(q: Seq<TrackV>, path: Seq<char>) -> Option<int>
    decreases q.len(),
{
    if q.len() == 0 {
        None
    } else if q[0].path == path {
        Some(0)
    } else {
        match spec_first_path_index(q.skip(1), path) {
            Some(i) => Some(i + 1),
            None => None,
        }
    }
}

/// A first match from the front is what the recursive search names.
proof fn lemma_first_path_index(q: Seq<TrackV>, path: Seq<char>, i: int)
    requires
        0 <= i < q.len(),
        q[i].path == path,
        forall|j: int| 0 <= j < i ==> (#[trigger] q[j]).path != path,
    ensures
        spec_first_path_index(q, path) == Some(i),
    decreases q.len(),
{
    if i == 0 {
    } else {
        assert(q[0].path != path);
        let t = q.skip(1);
        assert forall|j: int| 0 <= j < i - 1 implies (#[trigger] t[j]).path != path by {
            assert(t[j] == q[j + 1]);
        }
        assert(t[i - 1] == q[i]);
        lemma_first_path_index(t, path, i - 1);
    }
}

/// When no entry matches, the recursive search reports none.
proof fn lemma_no_path_index(q: Seq<TrackV>, path: Seq<char>)
    requires
        forall|j: int| 0 <= j < q.len() ==> (#[trigger] q[j]).path != path,
    ensures
        spec_first_path_index(q, path) is None,
    decreases q.len(),
{
    if q.len() > 0 {
        let t = q.skip(1);
        assert forall|j: int| 0 <= j < t.len() implies (#[trigger] t[j]).path != path by {
            assert(t[j] == q[j + 1]);
        }
        lemma_no_path_index(t, path);
    }
}

/// A found index lies inside the queue.
pub proof fn lemma_first_path_index_bound(q: Seq<TrackV>, path: Seq<char>, i: int)
    requires
        spec_first_path_index(q, path) == Some(i),
    ensures
        0 <= i < q.len(),
        q[i].path == path,
    decreases q.len(),
{
    if q.len() == 0 {
    } else if q[0].path == path {
    } else {
        lemma_first_path_index_bound(q.skip(1), path, i - 1);
        assert(q.skip(1)[i - 1] == q[i]);
    }
}

/// Finds the first queue entry with the given path.
fn find_path_index(queue: &Vec<LibraryTrack>, path: &String) -> (r: Option<usize>)
    ensures
        match r {
            Some(i) => spec_first_path_index(tracks_view(queue@), path@) == Some(i as int),
            None => spec_first_path_index(tracks_view(queue@), path@) is None,
        },
{
    let mut i: usize = 0;
    while i < queue.len()
        invariant
            0 <= i <= queue@.len(),
            forall|j: int| 0 <= j < i ==> (#[trigger] tracks_view(queue@)[j]).path != path@,
        decreases queue@.len() - i,
    {
        if crate::text::str_eq(queue[i].path.as_str(), path.as_str()) {
            proof {
                lemma_first_path_index(tracks_view(queue@), path@, i as int);
            }
            return Some(i);
        }
        proof {
            assert(tracks_view(queue@)[i as int] == queue@[i as int]@);
        }
        i = i + 1;
    }
    proof {
        lemma_no_path_index(tracks_view(queue@), path@);
    }
    None
}

/// The queue index the engine selects for a given current path: the first
/// queue entry with that path, if any.
pub open spec fn spec_queue_index_for(q: Seq<TrackV>, path: Option<Seq<char>>) -> Option<int> {
    match path {
        Some(p) => spec_first_path_index(q, p),
        None => None,
    }
}

impl EngineState {
    /// Replaces or extends the queue, then re-derives the queue index:
    /// it points at the first queue entry whose path equals the loaded
    /// file's path, and is cleared when there is none or no file is
    /// loaded. Returns the queue length.
    pub fn queue_add(&mut self, tracks: Vec<LibraryTrack>, replace: bool) -> (count: usize)
        requires
            old(self).wf(),
        ensures
            final(self).wf(),
            replace ==> final(self).queue@ == tracks@,
            !replace ==> final(self).queue@ == old(self).queue@ + tracks@,
            count == final(self).queue@.len(),
            match final(self).queue_index {
                Some(i) => spec_queue_index_for(
                    tracks_view(final(self).queue@),
                    opt_view(old(self).file_path),
                ) == Some(i as int),
                None => spec_queue_index_for(
                    tracks_view(final(self).queue@),
                    opt_view(old(self).file_path),
                ) is None,
            },
            *final(self) == (EngineState {
                queue: final(self).queue,
                queue_index: final(self).queue_index,
                ..*old(self)
            }),
    {
        if replace {
            self.queue = tracks;
            self.queue_index = None;
        } else {
            let mut incoming = tracks;
            self.queue.append(&mut incoming);
        }
        let idx: Option<usize> = match &self.file_path {
            Some(path) => find_path_index(&self.queue, path),
            None => None,
        };
        proof {
            if idx is Some {
                lemma_first_path_index_bound(
                    tracks_view(self.queue@),
                    self.file_path->0@,
                    idx->0 as int,
                );
            }
        }
        self.queue_index = idx;
        self.queue.len()
    }

    /// The queue position a next-track request advances to.
    pub open spec fn spec_next_index(self) -> int {
        match self.queue_index {
            Some(i) => i + 1,
            None => 0,
        }
    }

    /// Advances the queue: returns the next queued track and marks it
    /// current, or nothing (and changes nothing) when the queue is empty
    /// or exhausted.
    pub fn queue_next_pick(&mut self) -> (r: Option<LibraryTrack>)
        requires
            old(self).wf(),
        ensures
            final(self).wf(),
            match r {
                None => *final(self) == *old(self) && (old(self).queue@.len() == 0 || old(
                    self,
                ).spec_next_index() >= old(self).queue@.len()),
                Some(t) => {
                    &&& 0 <= old(self).spec_next_index() < old(self).queue@.len()
                    &&& t@ == old(self).queue@[old(self).spec_next_index()]@
                    &&& *final(self) == (EngineState {
                        queue_index: final(self).queue_index,
                        ..*old(self)
                    })
                    &&& final(self).queue_index == Some(old(self).spec_next_index() as usize)
                },
            },
    {
        if self.queue.len() == 0 {
            return None;
        }
        let next_index: usize = match self.queue_index {
            Some(i) => i + 1,
            None => 0,
        };
        if next_index >= self.queue.len() {
            return None;
        }
        self.queue_index = Some(next_index);
        Some(clone_track(&self.queue[next_index]))
    }

    /// Duration in milliseconds of a buffer of `frames` frames at `rate`
    /// frames per second; zero when the rate is unknown.
    pub open spec fn spec_duration_ms(frames: int, rate: int) -> int {
        if rate > 0 {
            frames * 1000 / rate
        } else {
            0
        }
    }

    /// Installs a decoded (and possibly resampled) file buffer: the
    /// buffer, rates and channel counts are adopted, the cursor rewinds,
    /// transport stops, the mode turns to file playback, and the queue
    /// index is re-derived from the new path.
    pub fn install_decoded(
        &mut self,
        path: String,
        data: Vec<i64>,
        sample_rate: u32,
        source_channels: usize,
        source_sample_rate: u32,
        source_bit_depth: Option<u32>,
    )
        requires
            old(self).wf(),
            1 <= source_channels,
            data@.len() as int % (source_channels as int) == 0,
            forall|i: int| 0 <= i < data@.len() ==> -SAMPLE_ONE <= #[trigger] data@[i] <= SAMPLE_ONE,
        ensures
            final(self).wf(),
            final(self).data@ == data@,
            final(self).channels == source_channels,
            final(self).sample_rate == sample_rate,
            final(self).source_channels == source_channels,
            final(self).source_sample_rate == source_sample_rate,
            final(self).source_bit_depth == source_bit_depth,
            final(self).position == 0,
            final(self).is_playing == false,
            final(self).is_paused == false,
            final(self).mode == Mode::File,
            final(self).stream_status == StreamStatus::Idle,
            opt_view(final(self).file_path) == Some(path@),
            final(self).duration_ms as int == spec_saturate_u64(
                Self::spec_duration_ms(
                    data@.len() as int / (source_channels as int),
                    sample_rate as int,
                ),
            ),
            match final(self).queue_index {
                Some(i) => spec_first_path_index(tracks_view(final(self).queue@), path@) == Some(
                    i as int,
                ),
                None => spec_first_path_index(tracks_view(final(self).queue@), path@) is None,
            },
            *final(self) == (EngineState {
                data: final(self).data,
                channels: source_channels,
                sample_rate,
                source_channels,
                source_sample_rate,
                source_bit_depth,
                position: 0,
                is_playing: false,
                is_paused: false,
                mode: Mode::File,
                stream_status: StreamStatus::Idle,
                file_path: final(self).file_path,
                duration_ms: final(self).duration_ms,
                queue_index: final(self).queue_index,
                ..*old(self)
            }),
    {
        let frames: usize = data.len() / source_channels;
        self.duration_ms = duration_ms_of(frames, sample_rate);
        self.data = data;
        self.channels = source_channels;
        self.sample_rate = sample_rate;
        self.source_channels = source_channels;
        self.source_sample_rate = source_sample_rate;
        self.source_bit_depth = source_bit_depth;
        self.position = 0;
        self.is_playing = false;
        self.is_paused = false;
        self.mode = Mode::File;
        self.stream_status = StreamStatus::Idle;
        let idx: Option<usize> = find_path_index(&self.queue, &path);
        proof {
            if idx is Some {
                lemma_first_path_index_bound(tracks_view(self.queue@), path@, idx->0 as int);
            }
            assert(0 <= self.data@.len() as int / (self.channels as int)) by (nonlinear_arith)
                requires
                    1 <= self.channels,
                    0 <= self.data@.len(),
            ;
        }
        self.queue_index = idx;
        self.file_path = Some(path);
    }
}

/// An unbounded count squeezed into a 64-bit value.
pub open spec fn spec_saturate_u64(v: int) -> int {
    if v > 0xFFFF_FFFF_FFFF_FFFF {
        0xFFFF_FFFF_FFFF_FFFF
    } else if v < 0 {
        0
    } else {
        v
    }
}

/// Milliseconds a buffer of `frames` frames lasts at `rate` frames per
/// second, saturating at the 64-bit limit; zero when the rate is unknown.
pub fn duration_ms_of(frames: usize, rate: u32) -> (r: u64)
    ensures
        r as int == spec_saturate_u64(EngineState::spec_duration_ms(frames as int, rate as int)),
{
    if rate == 0 {
        return 0;
    }
    let num: u128 = (frames as u128) * 1000;
    let ms: u128 = num / (rate as u128);
    proof {
        assert(num == (frames as int) * 1000 && num <= 0xFFFF_FFFF_FFFF_FFFF * 1000) by (
        nonlinear_arith)
            requires
                num == (frames as int) * 1000,
                0 <= frames <= 0xFFFF_FFFF_FFFF_FFFF,
        ;
        assert(0 <= (num as int) / (rate as int) <= num) by (nonlinear_arith)
            requires
                1 <= rate,
                0 <= num,
        ;
    }
    if ms > 0xFFFF_FFFF_FFFF_FFFFu128 {
        u64::MAX
    } else {
        ms as u64
    }
}

impl EngineState {
    /// Enters stream mode for a URL: rates and channels reset to the
    /// stream defaults, the file buffer empties, counters rewind, and the
    /// source is marked starting.
    pub fn set_stream_mode(&mut self, url: String)
        requires
            old(self).wf(),
        ensures
            final(self).wf(),
            final(self).sample_rate == (match old(self).target_samplerate {
                Some(t) => t,
                None => 48000u32,
            }),
            opt_view(final(self).stream_url) == Some(url@),
            *final(self) == (EngineState {
                mode: Mode::Stream,
                stream_url: final(self).stream_url,
                sample_rate: final(self).sample_rate,
                channels: 2,
                source_sample_rate: final(self).sample_rate,
                source_channels: 2,
                source_bit_depth: None,
                data: final(self).data,
                position: 0,
                played_frames: 0,
                duration_ms: 0,
                buffered_frames: 0,
                stream_status: StreamStatus::Starting,
                ..*old(self)
            }),
            final(self).data@.len() == 0,
    {
        self.mode = Mode::Stream;
        self.stream_url = Some(url);
        self.sample_rate = match self.target_samplerate {
            Some(t) => t,
            None => 48000,
        };
        self.channels = 2;
        self.source_sample_rate = self.sample_rate;
        self.source_channels = 2;
        self.source_bit_depth = None;
        self.data = Vec::new();
        self.position = 0;
        self.played_frames = 0;
        self.duration_ms = 0;
        self.buffered_frames = 0;
        self.stream_status = StreamStatus::Starting;
        proof {
            assert(self.data@.len() as int % (self.channels as int) == 0) by (nonlinear_arith)
                requires
                    self.data@.len() == 0,
                    1 <= self.channels,
            ;
        }
    }

    /// Enters capture mode: the requested rate and channel count (with
    /// defaults) are adopted for source and output alike, the file buffer
    /// empties, counters rewind, and the source is marked starting.
    pub fn set_capture_mode(
        &mut self,
        device_id: Option<String>,
        samplerate: Option<u32>,
        channels: Option<u16>,
    )
        requires
            old(self).wf(),
        ensures
            final(self).wf(),
            final(self).sample_rate == (match samplerate {
                Some(r) => r,
                None => 48000u32,
            }),
            final(self).channels == (match channels {
                Some(c) => if c < 1 {
                    1usize
                } else {
                    c as usize
                },
                None => 2usize,
            }),
            opt_view(final(self).stream_url) == opt_view(device_id),
            *final(self) == (EngineState {
                mode: Mode::Capture,
                stream_url: final(self).stream_url,
                sample_rate: final(self).sample_rate,
                channels: final(self).channels,
                source_sample_rate: final(self).sample_rate,
                source_channels: final(self).channels,
                source_bit_depth: None,
                data: final(self).data,
                position: 0,
                played_frames: 0,
                duration_ms: 0,
                buffered_frames: 0,
                stream_status: StreamStatus::Starting,
                ..*old(self)
            }),
            final(self).data@.len() == 0,
    {
        self.mode = Mode::Capture;
        self.sample_rate = match samplerate {
            Some(r) => r,
            None => 48000,
        };
        self.channels = match channels {
            Some(c) => if c < 1 {
                1
            } else {
                c as usize
            },
            None => 2,
        };
        self.source_sample_rate = self.sample_rate;
        self.source_channels = self.channels;
        self.source_bit_depth = None;
        self.data = Vec::new();
        self.position = 0;
        self.played_frames = 0;
        self.duration_ms = 0;
        self.buffered_frames = 0;
        self.stream_status = StreamStatus::Starting;
        self.stream_url = device_id;
        proof {
            assert(self.data@.len() as int % (self.channels as int) == 0) by (nonlinear_arith)
                requires
                    self.data@.len() == 0,
                    1 <= self.channels,
            ;
        }
    }

    /// Marks the stream source torn down: stopped, no error, no URL, no
    /// buffered audio.
    pub fn stream_stopped(&mut self)
        requires
            old(self).wf(),
        ensures
            final(self).wf(),
            *final(self) == (EngineState {
                stream_status: StreamStatus::Stopped,
                stream_error: None,
                stream_url: None,
                buffered_frames: 0,
                ..*old(self)
            }),
    {
        self.stream_status = StreamStatus::Stopped;
        self.stream_error = None;
        self.stream_url = None;
        self.buffered_frames = 0;
    }

    /// Leaves capture mode: idle, transport cleared.
    pub fn capture_stopped(&mut self)
        requires
            old(self).wf(),
        ensures
            final(self).wf(),
            *final(self) == (EngineState {
                mode: Mode::Idle,
                is_playing: false,
                is_paused: false,
                ..*old(self)
            }),
    {
        self.mode = Mode::Idle;
        self.is_playing = false;
        self.is_paused = false;
    }

    /// Records a stream status change and its error text.
    pub fn update_stream_status(&mut self, status: StreamStatus, err: Option<String>)
        requires
            old(self).wf(),
        ensures
            final(self).wf(),
            final(self).stream_status == status,
            opt_view(final(self).stream_error) == opt_view(err),
            *final(self) == (EngineState {
                stream_status: status,
                stream_error: final(self).stream_error,
                ..*old(self)
            }),
    {
        self.stream_status = status;
        self.stream_error = err;
    }

    /// Adopts an output selection: the device, and the exclusive flag as
    /// the platform resolved it.
    pub fn set_output_selection(&mut self, device_id: Option<usize>, exclusive_effective: bool)
        requires
            old(self).wf(),
        ensures
            final(self).wf(),
            *final(self) == (EngineState {
                device_id,
                exclusive_mode: exclusive_effective,
                ..*old(self)
            }),
    {
        self.device_id = device_id;
        self.exclusive_mode = exclusive_effective;
    }

    /// Stores the host's requested target sample rate.
    pub fn set_target_samplerate(&mut self, target: Option<u32>)
        requires
            old(self).wf(),
        ensures
            final(self).wf(),
            *final(self) == (EngineState { target_samplerate: target, ..*old(self) }),
    {
        self.target_samplerate = target;
    }

    /// Switches spectrum publication over the socket channel.
    pub fn set_spectrum_ws_enabled(&mut self, enabled: bool)
        requires
            old(self).wf(),
        ensures
            final(self).wf(),
            *final(self) == (EngineState { spectrum_ws_enabled: enabled, ..*old(self) }),
    {
        self.spectrum_ws_enabled = enabled;
    }

    /// Replaces the library after a scan.
    pub fn set_library(&mut self, tracks: Vec<LibraryTrack>)
        requires
            old(self).wf(),
        ensures
            final(self).wf(),
            final(self).library@ == tracks@,
            *final(self) == (EngineState { library: final(self).library, ..*old(self) }),
    {
        self.library = tracks;
    }

    /// Sets the equalizer type tag.
    pub fn set_eq_type(&mut self, eq_type: String)
        requires
            old(self).wf(),
        ensures
            final(self).wf(),
            final(self).eq_type@ == eq_type@,
            *final(self) == (EngineState { eq_type: final(self).eq_type, ..*old(self) }),
    {
        self.eq_type = eq_type;
    }

    /// Adopts a resampled file buffer at a new working rate: the cursor
    /// scales with the rate change and the duration follows the new
    /// buffer.
    pub fn apply_resampled(&mut self, resampled: Vec<i64>, target_rate: u32)
        requires
            old(self).wf(),
            target_rate >= 1,
            resampled@.len() as int % (old(self).channels as int) == 0,
            forall|i: int|
                0 <= i < resampled@.len() ==> -SAMPLE_ONE <= #[trigger] resampled@[i] <= SAMPLE_ONE,
        ensures
            final(self).wf(),
            final(self).data@ == resampled@,
            final(self).sample_rate == target_rate,
            final(self).position as int == spec_min_int(
                spec_scaled_position(
                    old(self).position as int,
                    old(self).sample_rate as int,
                    target_rate as int,
                ),
                final(self).data@.len() as int / (final(self).channels as int),
            ),
            final(self).duration_ms as int == spec_saturate_u64(
                Self::spec_duration_ms(
                    resampled@.len() as int / (old(self).channels as int),
                    target_rate as int,
                ),
            ),
            *final(self) == (EngineState {
                data: final(self).data,
                sample_rate: target_rate,
                position: final(self).position,
                duration_ms: final(self).duration_ms,
                ..*old(self)
            }),
    {
        let scaled: usize = scaled_position(self.position, self.sample_rate, target_rate);
        let frames: usize = resampled.len() / self.channels;
        self.duration_ms = duration_ms_of(frames, target_rate);
        self.position = if scaled < frames {
            scaled
        } else {
            frames
        };
        self.data = resampled;
        self.sample_rate = target_rate;
        proof {
            assert(0 <= self.data@.len() as int / (self.channels as int)) by (nonlinear_arith)
                requires
                    1 <= self.channels,
                    0 <= self.data@.len(),
            ;
        }
    }
}

/// The smaller of two integers.
pub open spec fn spec_min_int(a: int, b: int) -> int {
    if a < b {
        a
    } else {
        b
    }
}

/// A frame cursor rescaled from one rate to another, saturating at the
/// machine limit; an unknown source rate rewinds to zero.
pub open spec fn spec_scaled_position(position: int, old_rate: int, new_rate: int) -> int {
    if old_rate > 0 {
        spec_saturate_usize(position * new_rate / old_rate)
    } else {
        0
    }
}

/// An unbounded count squeezed into a machine word.
pub open spec fn spec_saturate_usize(v: int) -> int {
    if v > usize::MAX {
        usize::MAX as int
    } else if v < 0 {
        0
    } else {
        v
    }
}

/// Rescales a frame cursor from one sample rate to another.
pub fn scaled_position(position: usize, old_rate: u32, new_rate: u32) -> (r: usize)
    ensures
        r as int == spec_scaled_position(position as int, old_rate as int, new_rate as int),
{
    if old_rate == 0 {
        return 0;
    }
    proof {
        assert(0 <= (position as int) * (new_rate as int) <= 0xFFFF_FFFF_FFFF_FFFF * 0xFFFF_FFFF)
            by (nonlinear_arith)
            requires
                0 <= position <= 0xFFFF_FFFF_FFFF_FFFF,
                0 <= new_rate <= 0xFFFF_FFFF,
        ;
    }
    let num: u128 = (position as u128) * (new_rate as u128);
    let scaled: u128 = num / (old_rate as u128);
    proof {
        assert(0 <= (num as int) / (old_rate as int) <= num) by (nonlinear_arith)
            requires
                1 <= old_rate,
                0 <= num,
        ;
    }
    if scaled > usize::MAX as u128 {
        usize::MAX
    } else {
        scaled as usize
    }
}

/// Samples the single-producer single-consumer ring is sized to hold:
/// the configured maximum of buffered milliseconds at the working rate,
/// times the channel count, saturating at the machine limit.
pub open spec fn spec_ring_capacity(buffer_max_ms: int, sample_rate: int, channels: int) -> int {
    let rate = if sample_rate < 1 {
        1
    } else {
        sample_rate
    };
    let ch = if channels < 1 {
        1
    } else {
        channels
    };
    spec_saturate_usize((buffer_max_ms * rate / 1000) * ch)
}

/// Computes the sample capacity of the stream ring buffer.
pub fn ring_capacity(buffer_max_ms: u32, sample_rate: u32, channels: usize) -> (r: usize)
    ensures
        r as int == spec_ring_capacity(buffer_max_ms as int, sample_rate as int, channels as int),
{
    let rate: u32 = if sample_rate < 1 {
        1
    } else {
        sample_rate
    };
    let ch: usize = if channels < 1 {
        1
    } else {
        channels
    };
    proof {
        assert(0 <= (buffer_max_ms as int) * (rate as int) <= 0xFFFF_FFFF * 0xFFFF_FFFF) by (
        nonlinear_arith)
            requires
                0 <= buffer_max_ms <= 0xFFFF_FFFF,
                0 <= rate <= 0xFFFF_FFFF,
        ;
    }
    let frames: u128 = (buffer_max_ms as u128) * (rate as u128) / 1000;
    proof {
        assert(0 <= (frames as int) * (ch as int) <= 0xFFFF_FFFF * 0xFFFF_FFFF * 0xFFFF_FFFF_FFFF_FFFF)
            by (nonlinear_arith)
            requires
                0 <= frames <= 0xFFFF_FFFF * 0xFFFF_FFFF,
                0 <= ch <= 0xFFFF_FFFF_FFFF_FFFF,
        ;
    }
    let total: u128 = frames * (ch as u128);
    if total > usize::MAX as u128 {
        usize::MAX
    } else {
        total as usize
    }
}

/// The mathematical content of an equalizer band.
pub ghost struct EqBandV {
    pub name: Seq<char>,
    pub gain_milli_db: i64,
}

impl View for EqBand {
    type V = EqBandV;

    open spec fn view(&self) -> EqBandV {
        EqBandV { name: self.name@, gain_milli_db: self.gain_milli_db }
    }
}

/// The contents of a whole band list.
pub open spec fn bands_view(q: Seq<EqBand>) -> Seq<EqBandV> {
    q.map_values(|b: EqBand| b@)
}

/// Index of the first band with the given name, if any.
pub open spec fn spec_band_index(bands: Seq<EqBandV>, name: Seq<char>) -> Option<int>
    decreases bands.len(),
{
    if bands.len() == 0 {
        None
    } else if bands[0].name == name {
        Some(0)
    } else {
        match spec_band_index(bands.skip(1), name) {
            Some(i) => Some(i + 1),
            None => None,
        }
    }
}

/// A first matching band from the front is what the recursive search
/// names.
proof fn lemma_band_index(bands: Seq<EqBandV>, name: Seq<char>, i: int)
    requires
        0 <= i < bands.len(),
        bands[i].name == name,
        forall|j: int| 0 <= j < i ==> (#[trigger] bands[j]).name != name,
    ensures
        spec_band_index(bands, name) == Some(i),
    decreases bands.len(),
{
    if i == 0 {
    } else {
        assert(bands[0].name != name);
        let t = bands.skip(1);
        assert forall|j: int| 0 <= j < i - 1 implies (#[trigger] t[j]).name != name by {
            assert(t[j] == bands[j + 1]);
        }
        assert(t[i - 1] == bands[i]);
        lemma_band_index(t, name, i - 1);
    }
}

/// When no band matches, the recursive search reports none.
proof fn lemma_no_band_index(bands: Seq<EqBandV>, name: Seq<char>)
    requires
        forall|j: int| 0 <= j < bands.len() ==> (#[trigger] bands[j]).name != name,
    ensures
        spec_band_index(bands, name) is None,
    decreases bands.len(),
{
    if bands.len() > 0 {
        let t = bands.skip(1);
        assert forall|j: int| 0 <= j < t.len() implies (#[trigger] t[j]).name != name by {
            assert(t[j] == bands[j + 1]);
        }
        lemma_no_band_index(t, name);
    }
}

/// A found band index lies inside the list.
proof fn lemma_band_index_bound(bands: Seq<EqBandV>, name: Seq<char>, i: int)
    requires
        spec_band_index(bands, name) == Some(i),
    ensures
        0 <= i < bands.len(),
    decreases bands.len(),
{
    if bands.len() == 0 {
    } else if bands[0].name == name {
    } else {
        lemma_band_index_bound(bands.skip(1), name, i - 1);
    }
}

/// One gain request applied to the band list: the first band of that
/// name, if any, takes the new gain; unknown names change nothing.
pub open spec fn spec_apply_band(bands: Seq<EqBandV>, name: Seq<char>, gain: i64) -> Seq<EqBandV> {
    match spec_band_index(bands, name) {
        Some(i) => bands.update(i, EqBandV { name: bands[i].name, gain_milli_db: gain }),
        None => bands,
    }
}

/// A batch of gain requests applied in order.
pub open spec fn spec_apply_bands(bands: Seq<EqBandV>, reqs: Seq<(Seq<char>, i64)>) -> Seq<EqBandV>
    decreases reqs.len(),
{
    if reqs.len() == 0 {
        bands
    } else {
        spec_apply_bands(spec_apply_band(bands, reqs[0].0, reqs[0].1), reqs.skip(1))
    }
}

/// The content of a band request list.
pub open spec fn reqs_view(reqs: Seq<(String, i64)>) -> Seq<(Seq<char>, i64)> {
    reqs.map_values(|r: (String, i64)| (r.0@, r.1))
}

impl EngineState {
    /// Applies an equalizer request: the enabled flag if given, then each
    /// requested gain to the first band of that name; bands the engine
    /// does not know stay absent.
    pub fn set_eq(&mut self, enabled: Option<bool>, bands: &Vec<(String, i64)>)
        requires
            old(self).wf(),
        ensures
            final(self).wf(),
            final(self).eq_enabled == (match enabled {
                Some(e) => e,
                None => old(self).eq_enabled,
            }),
            bands_view(final(self).eq_bands@) == spec_apply_bands(
                bands_view(old(self).eq_bands@),
                reqs_view(bands@),
            ),
            *final(self) == (EngineState {
                eq_enabled: final(self).eq_enabled,
                eq_bands: final(self).eq_bands,
                ..*old(self)
            }),
    {
        if let Some(e) = enabled {
            self.eq_enabled = e;
        }
        let ghost orig: Seq<EqBandV> = bands_view(self.eq_bands@);
        proof {
            assert(reqs_view(bands@).skip(0) =~= reqs_view(bands@));
        }
        let mut k: usize = 0;
        while k < bands.len()
            invariant
                0 <= k <= bands@.len(),
                self.wf(),
                spec_apply_bands(bands_view(self.eq_bands@), reqs_view(bands@).skip(k as int))
                    == spec_apply_bands(orig, reqs_view(bands@)),
                *self == (EngineState {
                    eq_enabled: self.eq_enabled,
                    eq_bands: self.eq_bands,
                    ..*old(self)
                }),
                self.eq_enabled == (match enabled {
                    Some(e) => e,
                    None => old(self).eq_enabled,
                }),
            decreases bands@.len() - k,
        {
            let name: &String = &bands[k].0;
            let gain: i64 = bands[k].1;
            let mut i: usize = 0;
            let mut found: bool = false;
            while i < self.eq_bands.len() && !found
                invariant
                    0 <= i <= self.eq_bands@.len(),
                    !found ==> forall|j: int|
                        0 <= j < i ==> (#[trigger] bands_view(self.eq_bands@)[j]).name != name@,
                    found ==> i < self.eq_bands@.len() && bands_view(self.eq_bands@)[i as int].name
                        == name@ && forall|j: int|
                        0 <= j < i ==> (#[trigger] bands_view(self.eq_bands@)[j]).name != name@,
                decreases self.eq_bands@.len() - i + (if found {
                    0int
                } else {
                    1int
                }),
            {
                if crate::text::str_eq(self.eq_bands[i].name.as_str(), name.as_str()) {
                    found = true;
                } else {
                    proof {
                        assert(bands_view(self.eq_bands@)[i as int] == self.eq_bands@[i as int]@);
                    }
                    i = i + 1;
                }
            }
            let ghost before: Seq<EqBandV> = bands_view(self.eq_bands@);
            if found {
                let kept_name: String = self.eq_bands[i].name.clone();
                self.eq_bands.set(i, EqBand { name: kept_name, gain_milli_db: gain });
                proof {
                    lemma_band_index(before, name@, i as int);
                    assert(bands_view(self.eq_bands@) =~= spec_apply_band(before, name@, gain));
                }
            } else {
                proof {
                    lemma_no_band_index(before, name@);
                    assert(bands_view(self.eq_bands@) =~= spec_apply_band(before, name@, gain));
                }
            }
            proof {
                assert(reqs_view(bands@).skip(k as int)[0] == (name@, gain));
                assert(reqs_view(bands@).skip(k as int).skip(1) =~= reqs_view(bands@).skip(
                    k + 1 as int,
                ));
            }
            k = k + 1;
        }
        proof {
            assert(reqs_view(bands@).skip(bands@.len() as int).len() == 0);
        }
    }

    /// The dither type, enabled flag, and whether the error memories are
    /// cleared, after one optimization request: an explicit type is
    /// normalized (a change clears the memories; the off type disables),
    /// then an explicit enable forces the flags (disabling sets the off
    /// type and clears; enabling revives a plain type).
    pub open spec fn spec_opt_dither(
        old_ty: Seq<char>,
        old_en: bool,
        set_ty: Option<Seq<char>>,
        set_en: Option<bool>,
    ) -> (Seq<char>, bool, bool) {
        let mid = match set_ty {
            Some(v) => {
                let n = spec_normalize_dither_type(v);
                (
                    n,
                    if n == "off"@ {
                        false
                    } else {
                        old_en
                    },
                    n != old_ty,
                )
            },
            None => (old_ty, old_en, false),
        };
        match set_en {
            Some(true) => (
                if mid.0 == "off"@ {
                    "tpdf"@
                } else {
                    mid.0
                },
                true,
                mid.2,
            ),
            Some(false) => ("off"@, false, true),
            None => mid,
        }
    }

    /// Applies the dither part of an optimization request: type, depth
    /// and enable with their documented interplay.
    #[verifier::rlimit(100)]
    #[verifier::spinoff_prover]
    fn apply_dither_options(
        &mut self,
        dither_enabled: Option<bool>,
        dither_type: Option<String>,
        dither_bits: Option<u32>,
    )
        requires
            old(self).wf(),
        ensures
            final(self).wf(),
            ({
                let outcome = Self::spec_opt_dither(
                    old(self).dither_type@,
                    old(self).dither_enabled,
                    opt_view(dither_type),
                    dither_enabled,
                );
                &&& final(self).dither_type@ == outcome.0
                &&& final(self).dither_enabled == outcome.1
                &&& (outcome.2 ==> final(self).dither_shape_err1@ == spec_zero_errs()
                    && final(self).dither_shape_err2@ == spec_zero_errs())
                &&& (!outcome.2 ==> final(self).dither_shape_err1@ == old(self).dither_shape_err1@
                    && final(self).dither_shape_err2@ == old(self).dither_shape_err2@)
            }),
            final(self).dither_bits == (match dither_bits {
                Some(b) => spec_normalize_dither_bits(b as int) as u32,
                None => old(self).dither_bits,
            }),
            *final(self) == (EngineState {
                dither_type: final(self).dither_type,
                dither_enabled: final(self).dither_enabled,
                dither_bits: final(self).dither_bits,
                dither_shape_err1: final(self).dither_shape_err1,
                dither_shape_err2: final(self).dither_shape_err2,
                ..*old(self)
            }),
    {
        let mid: (String, bool, bool) = match dither_type {
            Some(value) => {
                let n: String = normalize_dither_type(value.as_str());
                let changed: bool = !crate::text::str_eq(n.as_str(), self.dither_type.as_str());
                let is_off: bool = crate::text::str_eq(n.as_str(), "off");
                let en: bool = if is_off {
                    false
                } else {
                    self.dither_enabled
                };
                (n, en, changed)
            },
            None => (self.dither_type.clone(), self.dither_enabled, false),
        };
        let fin: (String, bool, bool) = match dither_enabled {
            Some(true) => {
                let ty: String = if crate::text::str_eq(mid.0.as_str(), "off") {
                    String::from_str("tpdf")
                } else {
                    mid.0
                };
                (ty, true, mid.2)
            },
            Some(false) => (String::from_str("off"), false, true),
            None => mid,
        };
        if fin.2 {
            self.reset_dither_shape_state();
        }
        self.dither_type = fin.0;
        self.dither_enabled = fin.1;
        if let Some(bits) = dither_bits {
            self.dither_bits = normalize_dither_bits(bits);
        }
    }

    /// Stores a requested replay-gain flag, if one was given.
    fn set_replaygain_opt(&mut self, v: Option<bool>)
        requires
            old(self).wf(),
        ensures
            final(self).wf(),
            final(self).replaygain_enabled == (match v {
                Some(b) => b,
                None => old(self).replaygain_enabled,
            }),
            *final(self) == (EngineState {
                replaygain_enabled: final(self).replaygain_enabled,
                ..*old(self)
            }),
    {
        if let Some(b) = v {
            self.replaygain_enabled = b;
        }
    }

    /// Stores a requested resampler mode, normalized, if one was given.
    fn set_resampler_mode_opt(&mut self, v: Option<String>)
        requires
            old(self).wf(),
        ensures
            final(self).wf(),
            final(self).resampler_mode@ == (match v {
                Some(m) => spec_normalize_resampler_mode(m@),
                None => old(self).resampler_mode@,
            }),
            *final(self) == (EngineState {
                resampler_mode: final(self).resampler_mode,
                ..*old(self)
            }),
    {
        if let Some(value) = v {
            self.resampler_mode = normalize_resampler_mode(value.as_str());
        }
    }

    /// Stores a requested resampler quality, normalized, if one was
    /// given.
    fn set_resampler_quality_opt(&mut self, v: Option<String>)
        requires
            old(self).wf(),
        ensures
            final(self).wf(),
            final(self).resampler_quality@ == (match v {
                Some(m) => spec_normalize_resampler_quality(m@),
                None => old(self).resampler_quality@,
            }),
            *final(self) == (EngineState {
                resampler_quality: final(self).resampler_quality,
                ..*old(self)
            }),
    {
        if let Some(value) = v {
            self.resampler_quality = normalize_resampler_quality(value.as_str());
        }
    }

    /// Stores a requested limiter flag and threshold, where given; the
    /// threshold is clamped into its accepted range.
    fn set_limiter_opt(&mut self, enabled: Option<bool>, threshold: Option<i64>)
        requires
            old(self).wf(),
        ensures
            final(self).wf(),
            final(self).limiter_enabled == (match enabled {
                Some(b) => b,
                None => old(self).limiter_enabled,
            }),
            final(self).limiter_threshold == (match threshold {
                Some(v) => spec_normalize_limiter_threshold(v as int) as i64,
                None => old(self).limiter_threshold,
            }),
            *final(self) == (EngineState {
                limiter_enabled: final(self).limiter_enabled,
                limiter_threshold: final(self).limiter_threshold,
                ..*old(self)
            }),
    {
        if let Some(b) = enabled {
            self.limiter_enabled = b;
        }
        if let Some(v) = threshold {
            self.limiter_threshold = normalize_limiter_threshold(v);
        }
    }

    /// Applies an optimization request: dither type, depth and enable
    /// with their interplay, replay gain, resampler mode and quality
    /// normalized, the limiter flag and threshold, and a fresh probe of
    /// the high-quality library.
    #[verifier::rlimit(100)]
    #[verifier::spinoff_prover]
    pub fn configure_optimizations(
        &mut self,
        dither_enabled: Option<bool>,
        dither_type: Option<String>,
        dither_bits: Option<u32>,
        replaygain_enabled: Option<bool>,
        resampler_mode: Option<String>,
        resampler_quality: Option<String>,
        limiter_enabled: Option<bool>,
        limiter_threshold: Option<i64>,
        soxr_available: bool,
    )
        requires
            old(self).wf(),
        ensures
            final(self).wf(),
            ({
                let outcome = Self::spec_opt_dither(
                    old(self).dither_type@,
                    old(self).dither_enabled,
                    opt_view(dither_type),
                    dither_enabled,
                );
                &&& final(self).dither_type@ == outcome.0
                &&& final(self).dither_enabled == outcome.1
                &&& (outcome.2 ==> final(self).dither_shape_err1@ == spec_zero_errs()
                    && final(self).dither_shape_err2@ == spec_zero_errs())
                &&& (!outcome.2 ==> final(self).dither_shape_err1@ == old(self).dither_shape_err1@
                    && final(self).dither_shape_err2@ == old(self).dither_shape_err2@)
            }),
            final(self).dither_bits == (match dither_bits {
                Some(b) => spec_normalize_dither_bits(b as int) as u32,
                None => old(self).dither_bits,
            }),
            final(self).replaygain_enabled == (match replaygain_enabled {
                Some(v) => v,
                None => old(self).replaygain_enabled,
            }),
            final(self).resampler_mode@ == (match resampler_mode {
                Some(v) => spec_normalize_resampler_mode(v@),
                None => old(self).resampler_mode@,
            }),
            final(self).resampler_quality@ == (match resampler_quality {
                Some(v) => spec_normalize_resampler_quality(v@),
                None => old(self).resampler_quality@,
            }),
            final(self).limiter_enabled == (match limiter_enabled {
                Some(v) => v,
                None => old(self).limiter_enabled,
            }),
            final(self).limiter_threshold == (match limiter_threshold {
                Some(v) => spec_normalize_limiter_threshold(v as int) as i64,
                None => old(self).limiter_threshold,
            }),
            final(self).soxr_available == soxr_available,
            *final(self) == (EngineState {
                dither_type: final(self).dither_type,
                dither_enabled: final(self).dither_enabled,
                dither_bits: final(self).dither_bits,
                dither_shape_err1: final(self).dither_shape_err1,
                dither_shape_err2: final(self).dither_shape_err2,
                replaygain_enabled: final(self).replaygain_enabled,
                resampler_mode: final(self).resampler_mode,
                resampler_quality: final(self).resampler_quality,
                limiter_enabled: final(self).limiter_enabled,
                limiter_threshold: final(self).limiter_threshold,
                soxr_available,
                ..*old(self)
            }),
    {
        self.apply_dither_options(dither_enabled, dither_type, dither_bits);
        self.set_replaygain_opt(replaygain_enabled);
        self.set_resampler_mode_opt(resampler_mode);
        self.set_resampler_quality_opt(resampler_quality);
        self.set_limiter_opt(limiter_enabled, limiter_threshold);
        self.soxr_available = soxr_available;
    }
}

/// The ten equalizer band labels, at zero gain.
pub open spec fn spec_default_eq_bands() -> Seq<EqBandV> {
    seq![
        EqBandV { name: "31"@, gain_milli_db: 0 },
        EqBandV { name: "62"@, gain_milli_db: 0 },
        EqBandV { name: "125"@, gain_milli_db: 0 },
        EqBandV { name: "250"@, gain_milli_db: 0 },
        EqBandV { name: "500"@, gain_milli_db: 0 },
        EqBandV { name: "1k"@, gain_milli_db: 0 },
        EqBandV { name: "2k"@, gain_milli_db: 0 },
        EqBandV { name: "4k"@, gain_milli_db: 0 },
        EqBandV { name: "8k"@, gain_milli_db: 0 },
        EqBandV { name: "16k"@, gain_milli_db: 0 },
    ]
}

/// Builds the default equalizer bands: the ten standard octave labels,
/// all at zero gain.
pub fn default_eq_bands() -> (r: Vec<EqBand>)
    ensures
        bands_view(r@) == spec_default_eq_bands(),
{
    let mut v: Vec<EqBand> = Vec::new();
    v.push(EqBand { name: String::from_str("31"), gain_milli_db: 0 });
    v.push(EqBand { name: String::from_str("62"), gain_milli_db: 0 });
    v.push(EqBand { name: String::from_str("125"), gain_milli_db: 0 });
    v.push(EqBand { name: String::from_str("250"), gain_milli_db: 0 });
    v.push(EqBand { name: String::from_str("500"), gain_milli_db: 0 });
    v.push(EqBand { name: String::from_str("1k"), gain_milli_db: 0 });
    v.push(EqBand { name: String::from_str("2k"), gain_milli_db: 0 });
    v.push(EqBand { name: String::from_str("4k"), gain_milli_db: 0 });
    v.push(EqBand { name: String::from_str("8k"), gain_milli_db: 0 });
    v.push(EqBand { name: String::from_str("16k"), gain_milli_db: 0 });
    proof {
        assert(bands_view(v@) =~= spec_default_eq_bands());
    }
    v
}

/// Default limiter threshold (0.98 full scale).
pub const LIMITER_THRESHOLD_DEFAULT: i64 = 0xFAE1_47AE;

/// A zeroed spectrum mirror of the fixed analysis size.
fn zero_chunk() -> (r: Vec<i64>)
    ensures
        r@.len() == SPECTRUM_FFT_SIZE,
        forall|i: int| 0 <= i < r@.len() ==> #[trigger] r@[i] == 0i64,
{
    let mut v: Vec<i64> = Vec::new();
    let mut i: usize = 0;
    while i < SPECTRUM_FFT_SIZE
        invariant
            0 <= i <= SPECTRUM_FFT_SIZE,
            v@.len() == i,
            forall|j: int| 0 <= j < i ==> #[trigger] v@[j] == 0i64,
        decreases SPECTRUM_FFT_SIZE - i,
    {
        v.push(0);
        i = i + 1;
    }
    v
}

/// The engine as it starts: idle and silent at the stereo 48 kHz
/// defaults, full volume, triangular dither to 24 bits enabled, automatic
/// resampler selection at high quality, limiter off at its default
/// threshold, an empty library and queue, and the given dither seed.
pub fn initial_state(dither_seed: u64, soxr_available: bool) -> (r: EngineState)
    ensures
        r.wf(),
        r.is_playing == false,
        r.is_paused == false,
        r.mode == Mode::Idle,
        r.file_path is None,
        r.data@.len() == 0,
        r.channels == 2,
        r.sample_rate == 48000,
        r.source_channels == 2,
        r.source_sample_rate == 48000,
        r.source_bit_depth is None,
        r.position == 0,
        r.played_frames == 0,
        r.duration_ms == 0,
        r.volume == SAMPLE_ONE,
        r.device_id is None,
        r.exclusive_mode == false,
        r.eq_enabled == false,
        r.eq_type@ == "IIR"@,
        bands_view(r.eq_bands@) == spec_default_eq_bands(),
        r.dither_enabled == true,
        r.dither_type@ == "tpdf"@,
        r.dither_bits == 24,
        r.replaygain_enabled == true,
        r.resampler_mode@ == "auto"@,
        r.resampler_quality@ == "hq"@,
        r.soxr_available == soxr_available,
        r.limiter_enabled == false,
        r.limiter_threshold == LIMITER_THRESHOLD_DEFAULT,
        r.target_samplerate is None,
        r.stream_url is None,
        r.stream_status == StreamStatus::Idle,
        r.stream_error is None,
        r.buffered_frames == 0,
        r.buffer_max_ms == 5000,
        r.underrun_count == 0,
        r.library@.len() == 0,
        r.queue@.len() == 0,
        r.queue_index is None,
        r.dither_rng == dither_seed,
        r.dither_shape_err1@ == spec_zero_errs(),
        r.dither_shape_err2@ == spec_zero_errs(),
        r.spectrum_ws_enabled == true,
{
    let state = EngineState {
        is_playing: false,
        is_paused: false,
        mode: Mode::Idle,
        file_path: None,
        data: Vec::new(),
        channels: 2,
        sample_rate: 48000,
        source_channels: 2,
        source_sample_rate: 48000,
        source_bit_depth: None,
        position: 0,
        played_frames: 0,
        duration_ms: 0,
        volume: SAMPLE_ONE,
        device_id: None,
        exclusive_mode: false,
        eq_enabled: false,
        eq_type: String::from_str("IIR"),
        eq_bands: default_eq_bands(),
        dither_enabled: true,
        dither_type: String::from_str("tpdf"),
        dither_bits: 24,
        replaygain_enabled: true,
        resampler_mode: String::from_str("auto"),
        resampler_quality: String::from_str("hq"),
        soxr_available,
        limiter_enabled: false,
        limiter_threshold: LIMITER_THRESHOLD_DEFAULT,
        target_samplerate: None,
        stream_url: None,
        stream_status: StreamStatus::Idle,
        stream_error: None,
        buffered_frames: 0,
        buffer_max_ms: 5000,
        underrun_count: 0,
        library: Vec::new(),
        queue: Vec::new(),
        queue_index: None,
        last_output_chunk: zero_chunk(),
        dither_rng: dither_seed,
        dither_shape_err1: zero_err_vec(),
        dither_shape_err2: zero_err_vec(),
        spectrum_ws_enabled: true,
    };
    proof {
        assert(state.data@.len() as int % (state.channels as int) == 0) by (nonlinear_arith)
            requires
                state.data@.len() == 0,
                state.channels == 2,
        ;
        assert(state.dither_shape_err1@ =~= spec_zero_errs());
        assert(state.dither_shape_err2@ =~= spec_zero_errs());
    }
    state
}

/// Milliseconds a span of `frames` frames lasts at `rate` frames per
/// second, saturating at the 64-bit limit; zero when the rate is unknown.
pub fn ms_of_frames(frames: u64, rate: u32) -> (r: u64)
    ensures
        r as int == spec_saturate_u64(EngineState::spec_duration_ms(frames as int, rate as int)),
{
    if rate == 0 {
        return 0;
    }
    let num: u128 = (frames as u128) * 1000;
    let ms: u128 = num / (rate as u128);
    proof {
        assert(num == (frames as int) * 1000 && num <= 0xFFFF_FFFF_FFFF_FFFF * 1000) by (
        nonlinear_arith)
            requires
                num == (frames as int) * 1000,
                0 <= frames <= 0xFFFF_FFFF_FFFF_FFFF,
        ;
        assert(0 <= (num as int) / (rate as int) <= num) by (nonlinear_arith)
            requires
                1 <= rate,
                0 <= num,
        ;
    }
    if ms > 0xFFFF_FFFF_FFFF_FFFFu128 {
        u64::MAX
    } else {
        ms as u64
    }
}

/// One full copy of the state the control surface broadcasts: transport,
/// format, configuration and source fields, with times in milliseconds.
pub struct PlaybackView {
    pub is_playing: bool,
    pub is_paused: bool,
    pub duration_ms: u64,
    pub current_time_ms: u64,
    pub file_path: Option<String>,
    pub sample_rate: u32,
    pub channels: u32,
    pub source_sample_rate: u32,
    pub source_channels: u32,
    pub source_bit_depth: Option<u32>,
    pub volume: i64,
    pub device_id: Option<usize>,
    pub exclusive_mode: bool,
    pub eq_type: String,
    pub dither_enabled: bool,
    pub dither_type: String,
    pub dither_bits: u32,
    pub replaygain_enabled: bool,
    pub resampler_mode: String,
    pub resampler_quality: String,
    pub soxr_available: bool,
    pub limiter_enabled: bool,
    pub limiter_threshold: i64,
    pub eq_enabled: bool,
    pub eq_bands: Vec<EqBand>,
    pub target_samplerate: Option<u32>,
    pub mode: Mode,
    pub stream_status: StreamStatus,
    pub buffered_ms: u64,
    pub underruns: u64,
    pub spectrum_ws_enabled: bool,
}

/// A channel count squeezed into 32 bits.
pub open spec fn spec_saturate_u32(v: int) -> int {
    if v > 0xFFFF_FFFF {
        0xFFFF_FFFF
    } else if v < 0 {
        0
    } else {
        v
    }
}

/// A channel count for the control surface.
fn channels_u32(channels: usize) -> (r: u32)
    ensures
        r as int == spec_saturate_u32(channels as int),
{
    if channels > 0xFFFF_FFFFusize {
        u32::MAX
    } else {
        channels as u32
    }
}

/// Copies an optional string.
fn clone_opt_string(o: &Option<String>) -> (r: Option<String>)
    ensures
        opt_view(r) == opt_view(*o),
{
    match o {
        Some(s) => Some(s.clone()),
        None => None,
    }
}

/// Copies the equalizer bands.
fn clone_eq_bands(bands: &Vec<EqBand>) -> (r: Vec<EqBand>)
    ensures
        bands_view(r@) == bands_view(bands@),
{
    let mut out: Vec<EqBand> = Vec::new();
    let mut i: usize = 0;
    while i < bands.len()
        invariant
            0 <= i <= bands@.len(),
            out@.len() == i,
            bands_view(out@) =~= bands_view(bands@).subrange(0, i as int),
        decreases bands@.len() - i,
    {
        let b: &EqBand = &bands[i];
        let copied = EqBand { name: b.name.clone(), gain_milli_db: b.gain_milli_db };
        proof {
            assert(copied@ == bands@[i as int]@);
        }
        let ghost copied_v: EqBandV = copied@;
        let ghost before_push: Seq<EqBand> = out@;
        out.push(copied);
        proof {
            assert(before_push.len() == i);
            assert(out@.len() == i + 1);
            assert(out@[i as int]@ == copied_v);
            assert(bands_view(out@) =~= bands_view(bands@).subrange(0, i + 1 as int));
        }
        i = i + 1;
    }
    proof {
        assert(bands_view(bands@).subrange(0, bands@.len() as int) =~= bands_view(bands@));
    }
    out
}

impl EngineState {
    /// The playback position the control surface shows, in milliseconds:
    /// the file cursor in file mode, the played frame count otherwise.
    pub open spec fn spec_current_time_ms(self) -> int {
        if self.mode == Mode::File {
            spec_saturate_u64(Self::spec_duration_ms(self.position as int, self.sample_rate as int))
        } else {
            spec_saturate_u64(
                Self::spec_duration_ms(self.played_frames as int, self.sample_rate as int),
            )
        }
    }

    /// Builds the full state view the control surface broadcasts.
    #[verifier::rlimit(100)]
    #[verifier::spinoff_prover]
    pub fn build_state_view(&self) -> (r: PlaybackView)
        requires
            self.wf(),
        ensures
            r.is_playing == self.is_playing,
            r.is_paused == self.is_paused,
            r.duration_ms == self.duration_ms,
            r.current_time_ms as int == self.spec_current_time_ms(),
            opt_view(r.file_path) == opt_view(self.file_path),
            r.sample_rate == self.sample_rate,
            r.channels as int == spec_saturate_u32(self.channels as int),
            r.source_sample_rate == self.source_sample_rate,
            r.source_channels as int == spec_saturate_u32(self.source_channels as int),
            r.source_bit_depth == self.source_bit_depth,
            r.volume == self.volume,
            r.device_id == self.device_id,
            r.exclusive_mode == self.exclusive_mode,
            r.eq_type@ == self.eq_type@,
            r.dither_enabled == self.dither_enabled,
            r.dither_type@ == self.dither_type@,
            r.dither_bits == self.dither_bits,
            r.replaygain_enabled == self.replaygain_enabled,
            r.resampler_mode@ == self.resampler_mode@,
            r.resampler_quality@ == self.resampler_quality@,
            r.soxr_available == self.soxr_available,
            r.limiter_enabled == self.limiter_enabled,
            r.limiter_threshold == self.limiter_threshold,
            r.eq_enabled == self.eq_enabled,
            bands_view(r.eq_bands@) == bands_view(self.eq_bands@),
            r.target_samplerate == self.target_samplerate,
            r.mode == self.mode,
            r.stream_status == self.stream_status,
            r.buffered_ms as int == spec_saturate_u64(
                Self::spec_duration_ms(self.buffered_frames as int, self.sample_rate as int),
            ),
            r.underruns == self.underrun_count,
            r.spectrum_ws_enabled == self.spectrum_ws_enabled,
    {
        let current_time_ms: u64 = if matches!(self.mode, Mode::File) {
            ms_of_frames(self.position as u64, self.sample_rate)
        } else {
            ms_of_frames(self.played_frames, self.sample_rate)
        };
        PlaybackView {
            is_playing: self.is_playing,
            is_paused: self.is_paused,
            duration_ms: self.duration_ms,
            current_time_ms,
            file_path: clone_opt_string(&self.file_path),
            sample_rate: self.sample_rate,
            channels: channels_u32(self.channels),
            source_sample_rate: self.source_sample_rate,
            source_channels: channels_u32(self.source_channels),
            source_bit_depth: self.source_bit_depth,
            volume: self.volume,
            device_id: self.device_id,
            exclusive_mode: self.exclusive_mode,
            eq_type: self.eq_type.clone(),
            dither_enabled: self.dither_enabled,
            dither_type: self.dither_type.clone(),
            dither_bits: self.dither_bits,
            replaygain_enabled: self.replaygain_enabled,
            resampler_mode: self.resampler_mode.clone(),
            resampler_quality: self.resampler_quality.clone(),
            soxr_available: self.soxr_available,
            limiter_enabled: self.limiter_enabled,
            limiter_threshold: self.limiter_threshold,
            eq_enabled: self.eq_enabled,
            eq_bands: clone_eq_bands(&self.eq_bands),
            target_samplerate: self.target_samplerate,
            mode: self.mode,
            stream_status: self.stream_status,
            buffered_ms: ms_of_frames(self.buffered_frames as u64, self.sample_rate),
            underruns: self.underrun_count,
            spectrum_ws_enabled: self.spectrum_ws_enabled,
        }
    }
}

/// What the control surface shows of the loaded track.
pub struct TrackInfo {
    pub path: Option<String>,
    pub title: Option<String>,
    pub duration_ms: u64,
    pub sample_rate: u32,
    pub channels: u32,
    pub bit_depth: Option<u32>,
}

/// What the control surface shows of the playback position.
pub struct PositionInfo {
    pub current_ms: u64,
    pub duration_ms: u64,
    pub permille: u32,
}

impl EngineState {
    /// Describes the loaded track: its path, a title derived from the
    /// file name, its duration, and the source format.
    pub fn track_info(&self) -> (r: TrackInfo)
        requires
            self.wf(),
        ensures
            opt_view(r.path) == opt_view(self.file_path),
            (match self.file_path {
                Some(p) => (match r.title {
                    Some(t) => crate::media::spec_file_stem(p@) == Some(t@),
                    None => crate::media::spec_file_stem(p@) is None,
                }),
                None => r.title is None,
            }),
            r.duration_ms == self.duration_ms,
            r.sample_rate == self.source_sample_rate,
            r.channels as int == spec_saturate_u32(self.source_channels as int),
            r.bit_depth == self.source_bit_depth,
    {
        let title: Option<String> = match &self.file_path {
            Some(p) => crate::media::track_title_from_path(p.as_str()),
            None => None,
        };
        TrackInfo {
            path: clone_opt_string(&self.file_path),
            title,
            duration_ms: self.duration_ms,
            sample_rate: self.source_sample_rate,
            channels: channels_u32(self.source_channels),
            bit_depth: self.source_bit_depth,
        }
    }

    /// The progress ratio in thousandths: elapsed time over duration,
    /// clamped to one.
    pub open spec fn spec_permille(current_ms: int, duration_ms: int) -> int {
        if duration_ms > 0 {
            if current_ms * 1000 / duration_ms > 1000 {
                1000
            } else {
                current_ms * 1000 / duration_ms
            }
        } else {
            0
        }
    }

    /// Describes the playback position: the file cursor in milliseconds,
    /// the duration, and their ratio in thousandths.
    pub fn position_info(&self) -> (r: PositionInfo)
        requires
            self.wf(),
        ensures
            r.current_ms as int == spec_saturate_u64(
                Self::spec_duration_ms(self.position as int, self.sample_rate as int),
            ),
            r.duration_ms == self.duration_ms,
            r.permille as int == Self::spec_permille(r.current_ms as int, self.duration_ms as int),
    {
        let current_ms: u64 = ms_of_frames(self.position as u64, self.sample_rate);
        let permille: u32 = if self.duration_ms > 0 {
            let num: u128 = (current_ms as u128) * 1000;
            let p: u128 = num / (self.duration_ms as u128);
            proof {
                assert(num == (current_ms as int) * 1000 && num <= 0xFFFF_FFFF_FFFF_FFFF * 1000)
                    by (nonlinear_arith)
                    requires
                        num == (current_ms as int) * 1000,
                        0 <= current_ms <= 0xFFFF_FFFF_FFFF_FFFF,
                ;
                assert(0 <= (num as int) / (self.duration_ms as int) <= num) by (nonlinear_arith)
                    requires
                        1 <= self.duration_ms,
                        0 <= num,
                ;
            }
            if p > 1000 {
                1000
            } else {
                p as u32
            }
        } else {
            0
        };
        PositionInfo { current_ms, duration_ms: self.duration_ms, permille }
    }
}

/// A zeroed error memory of the noise shaper.
pub open spec fn spec_zero_errs() -> Seq<i64> {
    Seq::new(MAX_DITHER_CHANNELS as nat, |i: int| 0i64)
}

/// A fresh, zeroed error memory for the noise shaper.
fn zero_err_vec() -> (r: Vec<i64>)
    ensures
        r@ =~= spec_zero_errs(),
{
    let mut v: Vec<i64> = Vec::new();
    let mut i: usize = 0;
    while i < MAX_DITHER_CHANNELS
        invariant
            0 <= i <= MAX_DITHER_CHANNELS,
            v@.len() == i,
            forall|j: int| 0 <= j < i ==> #[trigger] v@[j] == 0i64,
        decreases MAX_DITHER_CHANNELS - i,
    {
        v.push(0);
        i = i + 1;
    }
    proof {
        assert(v@ =~= spec_zero_errs());
    }
    v
}

} // verus!
