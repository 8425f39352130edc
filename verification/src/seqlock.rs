use vstd::prelude::*;

verus! {

/// Bytes of the spectrum region header: the sequence counter.
pub const SPECTRUM_HEADER_BYTES: usize = 4;

/// The spectrum shared region as the engine models it: the seqlock
/// counter and the published bin values, each bin carried as the bit
/// pattern of its 32-bit sample.
pub struct SpectrumRegion {
    pub seq: u32,
    pub data: Vec<u32>,
}

/// Publishes one bin array under the seqlock protocol: the counter goes
/// odd, the bins are copied (missing trailing bins zeroed), and the
/// counter goes even again, two above where it started. A region whose
/// counter rests even keeps it resting even.
pub fn write_spectrum(region: &mut SpectrumRegion, bins: &Vec<u32>)
    ensures
        final(region).seq == old(region).seq.wrapping_add(2),
        old(region).seq % 2 == 0 ==> final(region).seq % 2 == 0,
        final(region).data@.len() == old(region).data@.len(),
        forall|i: int|
            0 <= i < final(region).data@.len() ==> #[trigger] final(region).data@[i] == (if i
                < bins@.len() {
                bins@[i]
            } else {
                0u32
            }),
{
    let start: u32 = region.seq.wrapping_add(1);
    region.seq = start;
    let n: usize = region.data.len();
    let mut i: usize = 0;
    while i < n
        invariant
            0 <= i <= n,
            region.data@.len() == n,
            region.seq == start,
            forall|j: int|
                0 <= j < i ==> #[trigger] region.data@[j] == (if j < bins@.len() {
                    bins@[j]
                } else {
                    0u32
                }),
        decreases n - i,
    {
        let v: u32 = if i < bins.len() {
            bins[i]
        } else {
            0
        };
        region.data.set(i, v);
        i = i + 1;
    }
    region.seq = start.wrapping_add(1);
    proof {
        let s0: u32 = old(region).seq;
        assert(start.wrapping_add(1) == s0.wrapping_add(2));
        assert(s0 % 2 == 0 ==> s0.wrapping_add(2) % 2 == 0) by (bit_vector);
    }
}

/// Whether a reader may accept a snapshot: the counter read before and
/// after the copy must agree and be even.
pub open spec fn spec_accept_snapshot(seq_start: u32, seq_end: u32) -> bool {
    seq_start == seq_end && seq_start % 2 == 0
}

/// Decides whether a reader's snapshot is coherent.
pub fn accept_snapshot(seq_start: u32, seq_end: u32) -> (r: bool)
    ensures
        r == spec_accept_snapshot(seq_start, seq_end),
{
    seq_start == seq_end && seq_start % 2 == 0
}

/// The region as the consistency argument models it, with the counter
/// kept as an unbounded integer.
pub ghost struct RegionV {
    pub seq: int,
    pub data: Seq<u32>,
}

/// One step the writer may take between two observations of the region:
/// leave it alone; open a write, raising an even counter to odd; change
/// data while the counter stays odd; or close a write, raising the odd
/// counter to even with the data it published.
pub open spec fn spec_writer_step(a: RegionV, b: RegionV) -> bool {
    ||| b == a
    ||| (a.seq % 2 == 0 && b.seq == a.seq + 1 && b.data == a.data)
    ||| (a.seq % 2 == 1 && b.seq == a.seq && b.data.len() == a.data.len())
    ||| (a.seq % 2 == 1 && b.seq == a.seq + 1 && b.data == a.data)
}

/// A history of the region in which every transition is a writer step.
pub open spec fn spec_writer_trace(t: Seq<RegionV>) -> bool {
    forall|k: int| 0 <= k < t.len() - 1 ==> spec_writer_step(#[trigger] t[k], t[k + 1])
}

/// The counter never decreases along a writer trace.
proof fn lemma_seq_monotone(t: Seq<RegionV>, a: int, b: int)
    requires
        spec_writer_trace(t),
        0 <= a <= b < t.len(),
    ensures
        t[a].seq <= t[b].seq,
    decreases b - a,
{
    if a < b {
        lemma_seq_monotone(t, a + 1, b);
        assert(spec_writer_step(t[a], t[a + 1]));
    }
}

/// A reader that sees the same even counter before and after its copy
/// saw a quiescent region: every state between its two loads equals the
/// first, so the bins it copied are exactly the bins some completed
/// write published, never a torn mixture.
pub proof fn lemma_seqlock_consistency(t: Seq<RegionV>, i: int, j: int)
    requires
        spec_writer_trace(t),
        0 <= i <= j < t.len(),
        t[i].seq == t[j].seq,
        t[i].seq % 2 == 0,
    ensures
        forall|k: int| i <= k <= j ==> t[k] == t[i],
    decreases j - i,
{
    if i < j {
        lemma_seq_monotone(t, i, i + 1);
        lemma_seq_monotone(t, i + 1, j);
        assert(spec_writer_step(t[i], t[i + 1]));
        assert(t[i + 1].seq == t[i].seq);
        assert(t[i + 1] == t[i]);
        lemma_seqlock_consistency(t, i + 1, j);
        assert forall|k: int| i <= k <= j implies t[k] == t[i] by {
            if k > i {
                assert(t[k] == t[i + 1]);
            }
        }
    }
}

/// Bytes a spectrum region of `bins` bins occupies: the counter header
/// plus four bytes per bin, saturating at the machine limit.
pub fn spectrum_region_len(bins: u32) -> (r: usize)
    ensures
        r as int == crate::state::spec_saturate_usize(
            SPECTRUM_HEADER_BYTES as int + bins as int * 4,
        ),
{
    let data: u64 = (bins as u64) * 4;
    let total: u64 = (SPECTRUM_HEADER_BYTES as u64) + data;
    if total > usize::MAX as u64 {
        usize::MAX
    } else {
        total as usize
    }
}

/// Bytes a control region of `capacity` slots occupies: the header plus
/// sixteen bytes per slot, saturating at the machine limit.
pub fn control_region_len(capacity: u32) -> (r: usize)
    ensures
        r as int == crate::state::spec_saturate_usize(
            crate::control::CONTROL_HEADER_BYTES as int + capacity as int
                * crate::control::CONTROL_CMD_BYTES as int,
        ),
{
    let data: u64 = (capacity as u64) * 16;
    let total: u64 = (crate::control::CONTROL_HEADER_BYTES as u64) + data;
    if total > usize::MAX as u64 {
        usize::MAX
    } else {
        total as usize
    }
}

} // verus!
