use vstd::prelude::*;
use crate::sample::SAMPLE_ONE;
use crate::state::{EngineState, Mode};

verus! {

/// Command tag: start playback.
pub const CONTROL_CMD_PLAY: u32 = 1;

/// Command tag: pause playback.
pub const CONTROL_CMD_PAUSE: u32 = 2;

/// Command tag: stop playback.
pub const CONTROL_CMD_STOP: u32 = 3;

/// Command tag: seek; the value is a position in seconds, fixed point.
pub const CONTROL_CMD_SEEK: u32 = 4;

/// Command tag: set the volume; the value is a gain in [0, 1], fixed
/// point.
pub const CONTROL_CMD_VOLUME: u32 = 5;

/// Bytes of the control region header: write index, read index,
/// capacity, and a reserved word.
pub const CONTROL_HEADER_BYTES: usize = 16;

/// Bytes of one command slot.
pub const CONTROL_CMD_BYTES: usize = 16;

/// One command slot of the control ring: a tag and a fixed-point value.
#[derive(Clone, Copy, PartialEq, Eq, Structural, Debug)]
pub struct ControlSlot {
    pub tag: u32,
    pub value: i64,
}

/// The transport fields the control ring can touch, plus the read
/// cursor, as one mathematical value.
pub ghost struct CtrlV {
    pub playing: bool,
    pub paused: bool,
    pub position: int,
    pub volume: int,
    pub read: int,
}

/// The frame a fixed-point seek time lands on: seconds times the rate,
/// never negative, capped at the end of the buffer and the machine limit.
pub open spec fn spec_seek_frame(value: int, rate: int, frames: int) -> int {
    let v = if value < 0 {
        0
    } else {
        value
    };
    let raw = v * rate / (SAMPLE_ONE as int);
    let capped = if raw < frames {
        raw
    } else {
        frames
    };
    crate::state::spec_min_int(capped, usize::MAX as int)
}

/// One control command applied to the transport fields.
pub open spec fn spec_apply_command(
    cur: CtrlV,
    slot: ControlSlot,
    mode: Mode,
    rate: int,
    frames: int,
) -> CtrlV {
    if slot.tag == CONTROL_CMD_PLAY {
        CtrlV { playing: true, paused: false, ..cur }
    } else if slot.tag == CONTROL_CMD_PAUSE {
        CtrlV { paused: true, ..cur }
    } else if slot.tag == CONTROL_CMD_STOP {
        CtrlV {
            playing: false,
            paused: false,
            position: if mode == Mode::File {
                0
            } else {
                cur.position
            },
            ..cur
        }
    } else if slot.tag == CONTROL_CMD_SEEK {
        if mode == Mode::File && rate > 0 {
            CtrlV { position: spec_seek_frame(slot.value as int, rate, frames), ..cur }
        } else {
            cur
        }
    } else if slot.tag == CONTROL_CMD_VOLUME {
        CtrlV { volume: crate::sample::spec_clamp_volume(slot.value as int), ..cur }
    } else {
        cur
    }
}

/// The drain loop, with at most `k` more commands allowed: commands are
/// taken in slot order from the read cursor until it meets the write
/// index or the allowance runs out.
pub open spec fn spec_drain_steps(
    slots: Seq<ControlSlot>,
    cap: int,
    write: int,
    cur: CtrlV,
    mode: Mode,
    rate: int,
    frames: int,
    k: nat,
) -> CtrlV
    decreases k,
{
    if k == 0 || cur.read == write {
        cur
    } else {
        let stepped = spec_apply_command(cur, slots[cur.read], mode, rate, frames);
        spec_drain_steps(
            slots,
            cap,
            write,
            CtrlV { read: (cur.read + 1) % cap, ..stepped },
            mode,
            rate,
            frames,
            (k - 1) as nat,
        )
    }
}

/// The transport fields of a state, bundled with a read cursor.
pub open spec fn spec_ctrl_of(state: EngineState, read: int) -> CtrlV {
    CtrlV {
        playing: state.is_playing,
        paused: state.is_paused,
        position: state.position as int,
        volume: state.volume as int,
        read,
    }
}

/// Computes the frame a fixed-point seek time lands on.
fn seek_frame(value: i64, rate: u32, frames: usize) -> (r: usize)
    ensures
        r as int == spec_seek_frame(value as int, rate as int, frames as int),
{
    let v: i128 = if value < 0 {
        0
    } else {
        value as i128
    };
    proof {
        assert(0 <= v * rate <= 0x7FFF_FFFF_FFFF_FFFF * 0xFFFF_FFFF) by (nonlinear_arith)
            requires
                0 <= v <= 0x7FFF_FFFF_FFFF_FFFF,
                0 <= rate <= 0xFFFF_FFFF,
        ;
    }
    let raw: i128 = v * (rate as i128) / (SAMPLE_ONE as i128);
    proof {
        assert(0 <= (v * rate) / (SAMPLE_ONE as int) <= v * rate) by (nonlinear_arith)
            requires
                0 <= v * rate,
                SAMPLE_ONE == 0x1_0000_0000,
        ;
    }
    if raw < frames as i128 {
        raw as usize
    } else {
        frames
    }
}

/// Drains the control ring into the engine: starting at `read`, at most
/// `capacity` commands are taken in slot order and applied to the
/// transport, and the new read cursor is returned. Nothing else of the
/// state moves.
#[verifier::rlimit(100)]
#[verifier::spinoff_prover]
pub fn drain_control_commands(
    state: &mut EngineState,
    slots: &Vec<ControlSlot>,
    write: u32,
    read: u32,
    capacity: u32,
) -> (new_read: u32)
    requires
        old(state).wf(),
        capacity >= 1,
        slots@.len() == capacity,
        read < capacity,
        write < capacity,
    ensures
        final(state).wf(),
        new_read < capacity,
        ({
            let outcome = spec_drain_steps(
                slots@,
                capacity as int,
                write as int,
                spec_ctrl_of(*old(state), read as int),
                old(state).mode,
                old(state).sample_rate as int,
                old(state).spec_frames(),
                capacity as nat,
            );
            &&& final(state).is_playing == outcome.playing
            &&& final(state).is_paused == outcome.paused
            &&& final(state).position as int == outcome.position
            &&& final(state).volume as int == outcome.volume
            &&& new_read as int == outcome.read
        }),
        *final(state) == (EngineState {
            is_playing: final(state).is_playing,
            is_paused: final(state).is_paused,
            position: final(state).position,
            volume: final(state).volume,
            ..*old(state)
        }),
{
    let ghost target: CtrlV = spec_drain_steps(
        slots@,
        capacity as int,
        write as int,
        spec_ctrl_of(*old(state), read as int),
        old(state).mode,
        old(state).sample_rate as int,
        old(state).spec_frames(),
        capacity as nat,
    );
    let mode: Mode = state.mode;
    let rate: u32 = state.sample_rate;
    let frames: usize = state.data.len() / state.channels;
    let mut cur_read: u32 = read;
    let mut processed: u32 = 0;
    while cur_read != write && processed < capacity
        invariant
            state.wf(),
            capacity >= 1,
            slots@.len() == capacity,
            cur_read < capacity,
            processed <= capacity,
            mode == old(state).mode,
            rate == old(state).sample_rate,
            frames as int == old(state).spec_frames(),
            state.mode == old(state).mode,
            state.data@ == old(state).data@,
            state.channels == old(state).channels,
            state.sample_rate == old(state).sample_rate,
            *state == (EngineState {
                is_playing: state.is_playing,
                is_paused: state.is_paused,
                position: state.position,
                volume: state.volume,
                ..*old(state)
            }),
            spec_drain_steps(
                slots@,
                capacity as int,
                write as int,
                spec_ctrl_of(*state, cur_read as int),
                mode,
                rate as int,
                frames as int,
                (capacity - processed) as nat,
            ) == target,
        decreases capacity - processed,
    {
        let slot: ControlSlot = slots[cur_read as usize];
        if slot.tag == CONTROL_CMD_PLAY {
            state.is_playing = true;
            state.is_paused = false;
        } else if slot.tag == CONTROL_CMD_PAUSE {
            state.is_paused = true;
        } else if slot.tag == CONTROL_CMD_STOP {
            state.is_playing = false;
            state.is_paused = false;
            if matches!(mode, Mode::File) {
                state.position = 0;
            }
        } else if slot.tag == CONTROL_CMD_SEEK {
            if matches!(mode, Mode::File) && rate > 0 {
                state.position = seek_frame(slot.value, rate, frames);
            }
        } else if slot.tag == CONTROL_CMD_VOLUME {
            state.volume = crate::sample::clamp_volume(slot.value);
        }
        cur_read = (cur_read + 1) % capacity;
        processed = processed + 1;
    }
    cur_read
}

/// Whether a producer may append to the ring, and where: the slot at the
/// write index is granted unless advancing it would meet the read index,
/// which is the full condition. With both indices inside a ring of
/// capacity C, at most C - 1 slots are ever in flight.
pub open spec fn spec_control_push_index(write: int, read: int, cap: int) -> Option<int> {
    let next = (write + 1) % cap;
    if next == read {
        None
    } else {
        Some(next)
    }
}

/// Decides a producer-side push: returns the next write index unless the
/// ring is full.
pub fn control_push_index(write: u32, read: u32, capacity: u32) -> (r: Option<u32>)
    requires
        capacity >= 1,
        write < capacity,
        read < capacity,
    ensures
        match r {
            Some(next) => spec_control_push_index(write as int, read as int, capacity as int)
                == Some(next as int) && next < capacity,
            None => spec_control_push_index(write as int, read as int, capacity as int)
                is None,
        },
{
    let next: u32 = (write + 1) % capacity;
    if next == read {
        None
    } else {
        Some(next)
    }
}

} // verus!
