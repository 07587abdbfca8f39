//! Laws of the protocol state machine, stated and proved over
//! [`spec_transition`]: what a read session does with each chunk, how the
//! verify phase hands its mismatches to the fix phase, what the fix phase
//! sends and in what order, and what becomes of every packet the current
//! phase cannot handle.

use vstd::prelude::*;

use crate::engine::{
    ByteMismatch, CommandV, ErrorV, StateV, spec_kind, spec_silent_step, spec_transition,
};
use crate::protocol::{PacketV, spec_be16_bytes, spec_checksum, spec_chunk_len, spec_chunk_wire};

verus! {

/// The final state, the concatenation of all transport bytes written, and
/// the concatenation of all bytes appended to the output file when,
/// starting from `s`, the packets of `ps` are fed to the state machine one
/// by one. A failing transition ends the run at once, as the session loop
/// would.
pub open spec fn spec_run(s: StateV, ps: Seq<PacketV>, cmd: CommandV) -> (
    StateV,
    Seq<u8>,
    Seq<u8>,
)
    decreases ps.len(),
{
    if ps.len() == 0 {
        (s, Seq::empty(), Seq::empty())
    } else {
        match spec_transition(s, ps[0], cmd) {
            Ok(step) => {
                let rest = spec_run(step.next, ps.drop_first(), cmd);
                (rest.0, step.wire + rest.1, step.output + rest.2)
            },
            Err(e) => (StateV::Finished(Err(e)), Seq::empty(), Seq::empty()),
        }
    }
}

/// During a read, a chunk whose checksum matches its payload advances
/// progress by exactly the payload's length, appends exactly the payload to
/// the output, and acknowledges with a single byte; a chunk whose checksum
/// does not match terminates the session with a checksum error and neither
/// writes nor acknowledges anything.
pub proof fn lemma_reading_chunk(
    progress: int,
    total: int,
    data: Seq<u8>,
    checksum: u16,
    cmd: CommandV,
)
    ensures
        checksum == spec_checksum(data) ==> (spec_transition(
            (StateV::Reading { progress, total }),
            (PacketV::Chunk { data, checksum }),
            cmd,
        ) matches Ok(step) && step.next == (StateV::Reading {
            progress: progress + data.len(),
            total,
        }) && step.output == data && step.wire == seq![0xFFu8]),
        checksum != spec_checksum(data) ==> (spec_transition(
            (StateV::Reading { progress, total }),
            (PacketV::Chunk { data, checksum }),
            cmd,
        ) matches Ok(step) && step.next == StateV::Finished(
            Err(
                ErrorV::ChecksumMismatch { expected: checksum, computed: spec_checksum(data) },
            ),
        ) && step.output == Seq::<u8>::empty() && step.wire == Seq::<u8>::empty()),
{
}

/// When a verify stream ends with mismatches recorded and fixing was
/// requested, the fix phase begins with exactly the recorded mismatches, in
/// arrival order, and its cursor at the start.
pub proof fn lemma_verify_to_fixing_preserves_order(
    current_byte: int,
    data: Seq<u8>,
    mismatches: Seq<ByteMismatch>,
    cmd: CommandV,
)
    requires
        current_byte >= data.len(),
        mismatches.len() > 0,
    ensures
        (spec_transition(
            (StateV::Verifying { current_byte, data, mismatches, fix: true }),
            PacketV::ChunkRequest,
            cmd,
        ) matches Ok(step) && step.next == (StateV::Fixing { mismatches, current: 0 })),
{
}

/// One step of the fix phase: before the cursor reaches the end, a
/// `ByteRequest` sends exactly the current correction — address, then
/// expected byte — and advances the cursor by one; the stream-end sentinel
/// is written only by the step taken with the cursor at the end, which
/// finishes the session successfully.
pub proof fn lemma_fixing_step(mismatches: Seq<ByteMismatch>, current: int, cmd: CommandV)
    requires
        0 <= current <= mismatches.len(),
    ensures
        current < mismatches.len() ==> (spec_transition(
            (StateV::Fixing { mismatches, current }),
            PacketV::ByteRequest,
            cmd,
        ) matches Ok(step) && step.next == (StateV::Fixing { mismatches, current: current + 1 })
            && step.wire == spec_be16_bytes(mismatches[current].address) + seq![
            mismatches[current].expected,
        ]),
        current >= mismatches.len() ==> (spec_transition(
            (StateV::Fixing { mismatches, current }),
            PacketV::ByteRequest,
            cmd,
        ) matches Ok(step) && step.next == StateV::Finished(Ok(())) && step.wire == seq![
            0xFFu8,
            0xFFu8,
        ]),
{
}

/// The transport bytes a fix phase still owes from cursor `from` on: each
/// remaining correction in mismatch order — address big-endian, then the
/// expected byte — followed by the stream-end sentinel.
pub open spec fn spec_correction_wire(mismatches: Seq<ByteMismatch>, from: int) -> Seq<u8>
    decreases mismatches.len() - from
        when 0 <= from <= mismatches.len()
{
    if from >= mismatches.len() {
        seq![0xFFu8, 0xFFu8]
    } else {
        spec_be16_bytes(mismatches[from].address) + seq![mismatches[from].expected]
            + spec_correction_wire(mismatches, from + 1)
    }
}

/// A whole fix phase, fed one `ByteRequest` per remaining mismatch and one
/// more: it sends every correction in mismatch order, writes the sentinel
/// only after the last one, and finishes successfully.
#[verifier::rlimit(100)]
pub proof fn lemma_fixing_sends_in_order(mismatches: Seq<ByteMismatch>, from: int, cmd: CommandV)
    requires
        0 <= from <= mismatches.len(),
    ensures
        ({
            let run = spec_run(
                (StateV::Fixing { mismatches, current: from }),
                Seq::new((mismatches.len() - from + 1) as nat, |i: int| PacketV::ByteRequest),
                cmd,
            );
            run.0 == StateV::Finished(Ok(())) && run.1 == spec_correction_wire(mismatches, from)
                && run.2 == Seq::<u8>::empty()
        }),
    decreases mismatches.len() - from,
{
    let ps = Seq::new((mismatches.len() - from + 1) as nat, |i: int| PacketV::ByteRequest);
    let start = StateV::Fixing { mismatches, current: from };
    assert(ps[0] == PacketV::ByteRequest);
    lemma_fixing_step(mismatches, from, cmd);
    let step = spec_transition(start, PacketV::ByteRequest, cmd)->Ok_0;
    let rest = spec_run(step.next, ps.drop_first(), cmd);
    assert(spec_run(start, ps, cmd) == (rest.0, step.wire + rest.1, step.output + rest.2));
    if from >= mismatches.len() {
        assert(ps.drop_first().len() == 0);
        assert(rest == (step.next, Seq::<u8>::empty(), Seq::<u8>::empty()));
        assert(step.wire + Seq::<u8>::empty() =~= spec_correction_wire(mismatches, from));
        assert(step.output + Seq::<u8>::empty() =~= Seq::<u8>::empty());
    } else {
        let tail = Seq::new((mismatches.len() - from) as nat, |i: int| PacketV::ByteRequest);
        assert(ps.drop_first() =~= tail);
        lemma_fixing_sends_in_order(mismatches, from + 1, cmd);
        assert(rest.0 == StateV::Finished(Ok(())));
        assert(rest.1 == spec_correction_wire(mismatches, from + 1));
        assert(step.wire + rest.1 =~= spec_correction_wire(mismatches, from));
        assert(step.output + rest.2 =~= Seq::<u8>::empty());
    }
}

/// How many chunk requests a write or verify stream still takes from
/// `cursor`: one per remaining chunk, and a final one that finds nothing
/// left to send.
pub open spec fn spec_requests_left(data: Seq<u8>, cursor: int) -> nat
    decreases data.len() - cursor
        when 0 <= cursor <= data.len()
{
    if cursor >= data.len() {
        1
    } else {
        1 + spec_requests_left(data, cursor + spec_chunk_len(data, cursor))
    }
}

/// The transport bytes a plain write session still owes from `cursor`:
/// each remaining chunk frame in order, then the single stream-end
/// acknowledgement.
pub open spec fn spec_write_wire(data: Seq<u8>, cursor: int) -> Seq<u8>
    decreases data.len() - cursor
        when 0 <= cursor <= data.len()
{
    if cursor >= data.len() {
        seq![0x00u8]
    } else {
        spec_chunk_wire(data, cursor) + spec_write_wire(data, cursor + spec_chunk_len(data, cursor))
    }
}

/// A whole plain write session, fed one `ChunkRequest` per remaining chunk
/// and one more: it sends every chunk frame in order — and so, by
/// [`crate::protocol::lemma_chunk_stream_reconstructs`], every payload byte
/// exactly once — acknowledges the stream end, and finishes successfully.
#[verifier::rlimit(100)]
pub proof fn lemma_write_streams_whole_payload(data: Seq<u8>, cursor: int, cmd: CommandV)
    requires
        0 <= cursor <= data.len(),
    ensures
        ({
            let run = spec_run(
                (StateV::Writing { current_byte: cursor, data, verify: false }),
                Seq::new(spec_requests_left(data, cursor), |i: int| PacketV::ChunkRequest),
                cmd,
            );
            run.0 == StateV::Finished(Ok(())) && run.1 == spec_write_wire(data, cursor)
                && run.2 == Seq::<u8>::empty()
        }),
    decreases data.len() - cursor,
{
    let ps = Seq::new(spec_requests_left(data, cursor), |i: int| PacketV::ChunkRequest);
    let start = StateV::Writing { current_byte: cursor, data, verify: false };
    assert(ps[0] == PacketV::ChunkRequest);
    let step = spec_transition(start, PacketV::ChunkRequest, cmd)->Ok_0;
    let rest = spec_run(step.next, ps.drop_first(), cmd);
    assert(spec_run(start, ps, cmd) == (rest.0, step.wire + rest.1, step.output + rest.2));
    if cursor >= data.len() {
        assert(ps.drop_first().len() == 0);
        assert(rest == (step.next, Seq::<u8>::empty(), Seq::<u8>::empty()));
        assert(step.wire + Seq::<u8>::empty() =~= spec_write_wire(data, cursor));
        assert(step.output + Seq::<u8>::empty() =~= Seq::<u8>::empty());
    } else {
        let moved = cursor + spec_chunk_len(data, cursor);
        assert(step.next == (StateV::Writing { current_byte: moved, data, verify: false }));
        let tail = Seq::new(spec_requests_left(data, moved), |i: int| PacketV::ChunkRequest);
        assert(ps.drop_first() =~= tail);
        lemma_write_streams_whole_payload(data, moved, cmd);
        assert(step.wire + rest.1 =~= spec_write_wire(data, cursor));
        assert(step.output + rest.2 =~= Seq::<u8>::empty());
    }
}

/// A whole read session, fed one correct chunk after another and then the
/// end marker: it appends exactly the concatenation of the chunks'
/// payloads to the output file, in arrival order, acknowledges each chunk
/// with a single byte, and finishes successfully.
#[verifier::rlimit(100)]
pub proof fn lemma_read_appends_in_order(
    progress: int,
    total: int,
    chunks: Seq<Seq<u8>>,
    cmd: CommandV,
)
    ensures
        ({
            let run = spec_run(
                (StateV::Reading { progress, total }),
                chunks.map_values(
                    |c: Seq<u8>| (PacketV::Chunk { data: c, checksum: spec_checksum(c) }),
                ).push(PacketV::ReadEnd),
                cmd,
            );
            run.0 == StateV::Finished(Ok(())) && run.1 == Seq::new(chunks.len(), |i: int| 0xFFu8)
                && run.2 == chunks.flatten()
        }),
    decreases chunks.len(),
{
    let ps = chunks.map_values(
        |c: Seq<u8>| (PacketV::Chunk { data: c, checksum: spec_checksum(c) }),
    ).push(PacketV::ReadEnd);
    let start = StateV::Reading { progress, total };
    if chunks.len() == 0 {
        assert(ps[0] == PacketV::ReadEnd);
        let step = spec_transition(start, PacketV::ReadEnd, cmd)->Ok_0;
        let rest = spec_run(step.next, ps.drop_first(), cmd);
        assert(ps.drop_first().len() == 0);
        assert(spec_run(start, ps, cmd) == (rest.0, step.wire + rest.1, step.output + rest.2));
        assert(step.wire + Seq::<u8>::empty() =~= Seq::new(chunks.len(), |i: int| 0xFFu8));
        assert(step.output + Seq::<u8>::empty() =~= chunks.flatten());
    } else {
        assert(ps[0] == (PacketV::Chunk {
            data: chunks[0],
            checksum: spec_checksum(chunks[0]),
        }));
        let step = spec_transition(start, ps[0], cmd)->Ok_0;
        let rest = spec_run(step.next, ps.drop_first(), cmd);
        assert(spec_run(start, ps, cmd) == (rest.0, step.wire + rest.1, step.output + rest.2));
        assert(step.next == (StateV::Reading {
            progress: progress + chunks[0].len(),
            total,
        }));
        let tail_chunks = chunks.drop_first();
        lemma_read_appends_in_order(progress + chunks[0].len(), total, tail_chunks, cmd);
        assert(ps.drop_first() =~= tail_chunks.map_values(
            |c: Seq<u8>| (PacketV::Chunk { data: c, checksum: spec_checksum(c) }),
        ).push(PacketV::ReadEnd));
        assert(step.wire + rest.1 =~= Seq::new(chunks.len(), |i: int| 0xFFu8));
        assert(chunks.flatten() == chunks.first() + tail_chunks.flatten());
        assert(step.output + rest.2 =~= chunks.flatten());
    }
}

/// The `(state, packet)` pairs the state machine handles. `Ready`, `Print`
/// and `InvalidChecksum` are handled in every state; every other packet
/// only in the phase that awaits it.
pub open spec fn spec_handled(s: StateV, p: PacketV) -> bool {
    ||| p is Ready
    ||| p is Print
    ||| p is InvalidChecksum
    ||| s is Reading && (p is Chunk || p is ReadEnd)
    ||| s is Writing && p is ChunkRequest
    ||| s is Verifying && (p is ByteMismatch || p is ChunkRequest)
    ||| s is Fixing && p is ByteRequest
}

/// Every pair the state machine does not handle lands, with no effect and
/// no output of any kind, in the terminal state that records the unexpected
/// packet: the transition neither fails nor ignores such a packet.
pub proof fn lemma_unhandled_is_rejected(s: StateV, p: PacketV, cmd: CommandV)
    requires
        !spec_handled(s, p),
    ensures
        (spec_transition(s, p, cmd) matches Ok(step) && step == spec_silent_step(
            StateV::Finished(
                Err(ErrorV::UnexpectedPacket { state_kind: spec_kind(s), packet: p }),
            ),
        )),
{
}

/// A state whose cursors stand within their bounds.
pub open spec fn spec_wf(s: StateV) -> bool {
    match s {
        StateV::Idle => true,
        StateV::Reading { progress, total } => 0 <= progress,
        StateV::Writing { current_byte, data, .. } => 0 <= current_byte <= data.len(),
        StateV::Verifying { current_byte, data, .. } => 0 <= current_byte <= data.len(),
        StateV::Fixing { mismatches, current } => 0 <= current <= mismatches.len(),
        StateV::Finished(_) => true,
    }
}

/// Every transition from a well-formed state yields a well-formed state:
/// the write, verify and fix cursors never leave their bounds.
pub proof fn lemma_transition_preserves_wf(s: StateV, p: PacketV, cmd: CommandV)
    requires
        spec_wf(s),
    ensures
        spec_transition(s, p, cmd) matches Ok(step) ==> spec_wf(step.next),
{
}

/// Except under `Ready`, which restarts the whole session, a transition
/// that stays in its streaming phase never moves its progress or cursor
/// backwards.
pub proof fn lemma_cursors_non_decreasing(s: StateV, p: PacketV, cmd: CommandV)
    requires
        !(p is Ready),
    ensures
        ({
            let r = spec_transition(s, p, cmd);
            &&& (s is Reading && r is Ok && r->Ok_0.next is Reading
                ==> r->Ok_0.next->Reading_progress >= s->Reading_progress)
            &&& (s is Writing && r is Ok && r->Ok_0.next is Writing
                ==> r->Ok_0.next->Writing_current_byte >= s->Writing_current_byte)
            &&& (s is Verifying && r is Ok && r->Ok_0.next is Verifying
                ==> r->Ok_0.next->Verifying_current_byte >= s->Verifying_current_byte)
            &&& (s is Fixing && r is Ok && r->Ok_0.next is Fixing
                ==> r->Ok_0.next->Fixing_current >= s->Fixing_current)
        }),
{
}

} // verus!


