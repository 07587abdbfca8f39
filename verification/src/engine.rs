//! The protocol state machine: a pure transition function that, given the
//! current session [`State`], one decoded [`Packet`] and the operator's
//! [`UserCommand`], produces the next state together with everything the
//! caller must do: observable [`Effect`]s to render, bytes to write to the
//! transport, and bytes to append to the read-session output file.
//!
//! The caller owns the transport and the files. It feeds every decoded
//! packet through [`State::transition`] and stops as soon as the state is
//! [`State::Finished`], which is terminal.

use vstd::prelude::*;
use vstd::string::StringExecFns;

use crate::protocol::{
    Packet, PacketV, ProtocolError, calculate_checksum, send_data_chunk, spec_be16_bytes,
    spec_checksum, spec_chunk_len, spec_chunk_wire,
};

verus! {

/// The discriminant of a [`State`], used when reporting an unexpected
/// packet.
#[derive(Debug, Clone, Copy, PartialEq, Eq, Hash, Structural)]
pub enum StateKind {
    Idle,
    Reading,
    Writing,
    Verifying,
    Fixing,
    Finished,
}

/// The operator's chosen action, fixed for the whole session.
///
/// Payload bytes travel with the command: the caller reads the source file
/// into memory before the session starts, and keeps the destination path of
/// a read session for itself.
#[derive(Debug, Clone)]
pub enum UserCommand {
    /// Dump the memory region `start..end` (`start <= end` required).
    Read { start: u16, end: u16 },
    /// Stream `data` to the device, then verify it if `verify` is set.
    Write { data: Vec<u8>, verify: bool },
    /// Compare `data` against the device, then fix mismatches if `fix` is
    /// set.
    Verify { data: Vec<u8>, fix: bool },
}

/// The mathematical value of a [`UserCommand`].
#[verifier::ext_equal]
pub enum CommandV {
    Read { start: u16, end: u16 },
    Write { data: Seq<u8>, verify: bool },
    Verify { data: Seq<u8>, fix: bool },
}

impl View for UserCommand {
    type V = CommandV;

    open spec fn view(&self) -> CommandV {
        match self {
            UserCommand::Read { start, end } => CommandV::Read { start: *start, end: *end },
            UserCommand::Write { data, verify } => CommandV::Write {
                data: data@,
                verify: *verify,
            },
            UserCommand::Verify { data, fix } => CommandV::Verify { data: data@, fix: *fix },
        }
    }
}

/// The options a session runs under.
#[derive(Debug, Clone)]
pub struct UserOptions {
    pub command: UserCommand,
}

impl View for UserOptions {
    type V = CommandV;

    open spec fn view(&self) -> CommandV {
        self.command@
    }
}

/// A mismatch reported by the device during verification: the address that
/// differs and the byte the payload expects there. Mismatches are kept in
/// arrival order, which is also the order corrections are sent in.
#[derive(Debug, Clone, Copy, PartialEq, Eq, Structural)]
pub struct ByteMismatch {
    pub address: u16,
    pub expected: u8,
}

/// An observable output of a transition, rendered by the caller. Protocol
/// bytes are not effects; they travel separately in [`Step::wire`].
#[derive(Debug, Clone)]
pub enum Effect {
    /// Device-supplied text, shown as it came.
    Print(String),
    /// A fixed host log line.
    PrintLn(String),
    /// Progress of a read, write or fix stream.
    Progress { done: usize, total: usize },
    /// Progress of a verify stream, with the mismatch count so far.
    VerifyProgress { done: usize, total: usize, mismatches: usize },
    /// The current progress indicator is finished.
    ProgressEnd,
    /// A read session completed; the caller knows the destination path.
    ReadComplete,
    /// A write stream completed after `bytes` bytes.
    WriteComplete { bytes: usize },
    /// A verify stream completed with `count` mismatches (`count > 0`).
    MismatchSummary { count: usize },
}

/// The mathematical value of an [`Effect`].
#[verifier::ext_equal]
pub enum EffectV {
    Print(Seq<char>),
    PrintLn(Seq<char>),
    Progress { done: int, total: int },
    VerifyProgress { done: int, total: int, mismatches: int },
    ProgressEnd,
    ReadComplete,
    WriteComplete { bytes: int },
    MismatchSummary { count: int },
}

impl View for Effect {
    type V = EffectV;

    open spec fn view(&self) -> EffectV {
        match self {
            Effect::Print(text) => EffectV::Print(text@),
            Effect::PrintLn(text) => EffectV::PrintLn(text@),
            Effect::Progress { done, total } => EffectV::Progress {
                done: *done as int,
                total: *total as int,
            },
            Effect::VerifyProgress { done, total, mismatches } => EffectV::VerifyProgress {
                done: *done as int,
                total: *total as int,
                mismatches: *mismatches as int,
            },
            Effect::ProgressEnd => EffectV::ProgressEnd,
            Effect::ReadComplete => EffectV::ReadComplete,
            Effect::WriteComplete { bytes } => EffectV::WriteComplete { bytes: *bytes as int },
            Effect::MismatchSummary { count } => EffectV::MismatchSummary {
                count: *count as int,
            },
        }
    }
}

impl DeepView for Effect {
    type V = EffectV;

    open spec fn deep_view(&self) -> EffectV {
        self.view()
    }
}

/// A terminal session failure.
#[derive(Debug, Clone)]
pub enum Error {
    /// The byte stream could not be decoded into a packet.
    Protocol(ProtocolError),
    /// A packet arrived that the current phase cannot handle.
    UnexpectedPacket { state_kind: StateKind, packet: Packet },
    /// A chunk arrived whose checksum does not match its payload, or the
    /// device reported the same about a chunk it received.
    ChecksumMismatch { expected: u16, computed: u16 },
    /// The operator asked to read a region with `end < start`.
    InvalidRegionBounds,
}

/// The mathematical value of an [`Error`].
#[verifier::ext_equal]
pub enum ErrorV {
    Protocol(ProtocolError),
    UnexpectedPacket { state_kind: StateKind, packet: PacketV },
    ChecksumMismatch { expected: u16, computed: u16 },
    InvalidRegionBounds,
}

impl View for Error {
    type V = ErrorV;

    open spec fn view(&self) -> ErrorV {
        match self {
            Error::Protocol(e) => ErrorV::Protocol(*e),
            Error::UnexpectedPacket { state_kind, packet } => ErrorV::UnexpectedPacket {
                state_kind: *state_kind,
                packet: packet@,
            },
            Error::ChecksumMismatch { expected, computed } => ErrorV::ChecksumMismatch {
                expected: *expected,
                computed: *computed,
            },
            Error::InvalidRegionBounds => ErrorV::InvalidRegionBounds,
        }
    }
}

impl DeepView for Error {
    type V = ErrorV;

    open spec fn deep_view(&self) -> ErrorV {
        self.view()
    }
}

/// The session's single mutable entity. It is created as [`State::Idle`],
/// replaced wholesale on every decoded packet, and consumed by the caller
/// when it observes [`State::Finished`].
#[derive(Debug)]
pub enum State {
    /// Waiting for the device's `Ready`.
    Idle,
    /// The device is streaming memory out; `total == end - start`.
    Reading { progress: usize, total: usize },
    /// The host is streaming the payload to the device.
    Writing { current_byte: usize, data: Vec<u8>, verify: bool },
    /// The host is streaming the payload for comparison.
    Verifying { current_byte: usize, data: Vec<u8>, mismatches: Vec<ByteMismatch>, fix: bool },
    /// The host is resending only the mismatched bytes.
    Fixing { mismatches: Vec<ByteMismatch>, current: usize },
    /// Terminal: the session outcome.
    Finished(Result<(), Error>),
}

/// The mathematical value of a [`State`].
#[verifier::ext_equal]
pub enum StateV {
    Idle,
    Reading { progress: int, total: int },
    Writing { current_byte: int, data: Seq<u8>, verify: bool },
    Verifying { current_byte: int, data: Seq<u8>, mismatches: Seq<ByteMismatch>, fix: bool },
    Fixing { mismatches: Seq<ByteMismatch>, current: int },
    Finished(Result<(), ErrorV>),
}

impl View for State {
    type V = StateV;

    open spec fn view(&self) -> StateV {
        match self {
            State::Idle => StateV::Idle,
            State::Reading { progress, total } => StateV::Reading {
                progress: *progress as int,
                total: *total as int,
            },
            State::Writing { current_byte, data, verify } => StateV::Writing {
                current_byte: *current_byte as int,
                data: data@,
                verify: *verify,
            },
            State::Verifying { current_byte, data, mismatches, fix } => StateV::Verifying {
                current_byte: *current_byte as int,
                data: data@,
                mismatches: mismatches@,
                fix: *fix,
            },
            State::Fixing { mismatches, current } => StateV::Fixing {
                mismatches: mismatches@,
                current: *current as int,
            },
            State::Finished(r) => StateV::Finished(
                match r {
                    Ok(_) => Ok(()),
                    Err(e) => Err(e@),
                },
            ),
        }
    }
}

/// Everything one transition produces besides consuming the packet: the
/// next state, the effects to render, the bytes to write to the transport,
/// and the bytes to append to the read-session output file.
#[derive(Debug)]
pub struct Step {
    pub next: State,
    pub effects: Vec<Effect>,
    pub wire: Vec<u8>,
    pub output: Vec<u8>,
}

/// The mathematical value of a [`Step`].
#[verifier::ext_equal]
pub struct StepV {
    pub next: StateV,
    pub effects: Seq<EffectV>,
    pub wire: Seq<u8>,
    pub output: Seq<u8>,
}

impl View for Step {
    type V = StepV;

    open spec fn view(&self) -> StepV {
        StepV {
            next: self.next@,
            effects: self.effects.deep_view(),
            wire: self.wire@,
            output: self.output@,
        }
    }
}

/// The discriminant of a state value.
pub open spec fn spec_kind(s: StateV) -> StateKind {
    match s {
        StateV::Idle => StateKind::Idle,
        StateV::Reading { .. } => StateKind::Reading,
        StateV::Writing { .. } => StateKind::Writing,
        StateV::Verifying { .. } => StateKind::Verifying,
        StateV::Fixing { .. } => StateKind::Fixing,
        StateV::Finished(_) => StateKind::Finished,
    }
}

/// A step that only moves to a state, with nothing to render or send.
pub open spec fn spec_silent_step(next: StateV) -> StepV {
    StepV { next, effects: Seq::empty(), wire: Seq::empty(), output: Seq::empty() }
}

/// What `Ready` does, in any state: restart command dispatch. The command's
/// opcode and parameters are written to the transport and the session
/// enters the command's initial state; a read region with `end < start` is
/// rejected before anything is written.
pub open spec fn spec_dispatch(cmd: CommandV) -> Result<StepV, ErrorV> {
    match cmd {
        CommandV::Read { start, end } => if end < start {
            Err(ErrorV::InvalidRegionBounds)
        } else {
            Ok(
                StepV {
                    next: StateV::Reading { progress: 0, total: end - start },
                    effects: seq![EffectV::PrintLn("Initiating EEPROM read..."@)],
                    wire: seq![0x00u8] + spec_be16_bytes(start) + spec_be16_bytes(end),
                    output: Seq::empty(),
                },
            )
        },
        CommandV::Write { data, verify } => Ok(
            StepV {
                next: StateV::Writing { current_byte: 0, data, verify },
                effects: seq![EffectV::PrintLn("Initiating EEPROM write..."@)],
                wire: seq![0x01u8, if verify { 1u8 } else { 0u8 }],
                output: Seq::empty(),
            },
        ),
        CommandV::Verify { data, fix } => Ok(
            StepV {
                next: StateV::Verifying { current_byte: 0, data, mismatches: Seq::empty(), fix },
                effects: seq![EffectV::PrintLn("Initiating EEPROM verification..."@)],
                wire: seq![0x02u8, if fix { 1u8 } else { 0u8 }],
                output: Seq::empty(),
            },
        ),
    }
}

/// The transition relation of the protocol state machine, exactly as
/// [`State::transition`] implements it.
pub open spec fn spec_transition(s: StateV, p: PacketV, cmd: CommandV) -> Result<StepV, ErrorV> {
    match (s, p) {
        (_, PacketV::Ready) => spec_dispatch(cmd),
        (state, PacketV::Print(text)) => Ok(
            StepV {
                next: state,
                effects: seq![EffectV::Print(text)],
                wire: Seq::empty(),
                output: Seq::empty(),
            },
        ),
        (_, PacketV::InvalidChecksum { expected, computed }) => Ok(
            spec_silent_step(StateV::Finished(Err(ErrorV::ChecksumMismatch { expected, computed }))),
        ),
        (StateV::Reading { progress, total }, PacketV::Chunk { data, checksum }) => {
            let computed = spec_checksum(data);
            if checksum != computed {
                Ok(
                    spec_silent_step(
                        StateV::Finished(
                            Err(ErrorV::ChecksumMismatch { expected: checksum, computed }),
                        ),
                    ),
                )
            } else {
                Ok(
                    StepV {
                        next: StateV::Reading { progress: progress + data.len(), total },
                        effects: seq![
                            EffectV::Progress { done: progress + data.len(), total },
                        ],
                        wire: seq![0xFFu8],
                        output: data,
                    },
                )
            }
        },
        (StateV::Reading { .. }, PacketV::ReadEnd) => Ok(
            StepV {
                next: StateV::Finished(Ok(())),
                effects: seq![EffectV::ProgressEnd, EffectV::ReadComplete],
                wire: Seq::empty(),
                output: Seq::empty(),
            },
        ),
        (StateV::Writing { current_byte, data, verify }, PacketV::ChunkRequest) => {
            if current_byte >= data.len() {
                let done = seq![
                    EffectV::ProgressEnd,
                    EffectV::WriteComplete { bytes: data.len() as int },
                ];
                if verify {
                    Ok(
                        StepV {
                            next: StateV::Verifying {
                                current_byte: 0,
                                data,
                                mismatches: Seq::empty(),
                                fix: true,
                            },
                            effects: done + seq![EffectV::PrintLn("Verifying..."@)],
                            wire: seq![0x00u8],
                            output: Seq::empty(),
                        },
                    )
                } else {
                    Ok(
                        StepV {
                            next: StateV::Finished(Ok(())),
                            effects: done,
                            wire: seq![0x00u8],
                            output: Seq::empty(),
                        },
                    )
                }
            } else {
                let sent = current_byte + spec_chunk_len(data, current_byte);
                Ok(
                    StepV {
                        next: StateV::Writing { current_byte: sent, data, verify },
                        effects: seq![
                            EffectV::Progress { done: sent, total: data.len() as int },
                        ],
                        wire: spec_chunk_wire(data, current_byte),
                        output: Seq::empty(),
                    },
                )
            }
        },
        (
            StateV::Verifying { current_byte, data, mismatches, fix },
            PacketV::ByteMismatch { address, expected, .. },
        ) => Ok(
            StepV {
                next: StateV::Verifying {
                    current_byte,
                    data,
                    mismatches: mismatches.push(ByteMismatch { address, expected }),
                    fix,
                },
                effects: seq![
                    EffectV::VerifyProgress {
                        done: current_byte,
                        total: data.len() as int,
                        mismatches: mismatches.len() as int,
                    },
                ],
                wire: Seq::empty(),
                output: Seq::empty(),
            },
        ),
        (StateV::Verifying { current_byte, data, mismatches, fix }, PacketV::ChunkRequest) => {
            if current_byte >= data.len() {
                if mismatches.len() == 0 {
                    Ok(
                        StepV {
                            next: StateV::Finished(Ok(())),
                            effects: seq![
                                EffectV::ProgressEnd,
                                EffectV::PrintLn("No mismatches found."@),
                            ],
                            wire: seq![0x00u8],
                            output: Seq::empty(),
                        },
                    )
                } else {
                    let done = seq![
                        EffectV::ProgressEnd,
                        EffectV::MismatchSummary { count: mismatches.len() as int },
                    ];
                    if fix {
                        Ok(
                            StepV {
                                next: StateV::Fixing { mismatches, current: 0 },
                                effects: done,
                                wire: seq![0x00u8],
                                output: Seq::empty(),
                            },
                        )
                    } else {
                        Ok(
                            StepV {
                                next: StateV::Finished(Ok(())),
                                effects: done,
                                wire: seq![0x00u8],
                                output: Seq::empty(),
                            },
                        )
                    }
                }
            } else {
                let sent = current_byte + spec_chunk_len(data, current_byte);
                Ok(
                    StepV {
                        next: StateV::Verifying { current_byte: sent, data, mismatches, fix },
                        effects: seq![
                            EffectV::VerifyProgress {
                                done: sent,
                                total: data.len() as int,
                                mismatches: mismatches.len() as int,
                            },
                        ],
                        wire: spec_chunk_wire(data, current_byte),
                        output: Seq::empty(),
                    },
                )
            }
        },
        (StateV::Fixing { mismatches, current }, PacketV::ByteRequest) => {
            if current >= mismatches.len() {
                Ok(
                    StepV {
                        next: StateV::Finished(Ok(())),
                        effects: seq![
                            EffectV::ProgressEnd,
                            EffectV::PrintLn("Mismatches fixed successfully."@),
                        ],
                        wire: seq![0xFFu8, 0xFFu8],
                        output: Seq::empty(),
                    },
                )
            } else {
                Ok(
                    StepV {
                        next: StateV::Fixing { mismatches, current: current + 1 },
                        effects: seq![
                            EffectV::Progress {
                                done: current + 1,
                                total: mismatches.len() as int,
                            },
                        ],
                        wire: spec_be16_bytes(mismatches[current].address) + seq![
                            mismatches[current].expected,
                        ],
                        output: Seq::empty(),
                    },
                )
            }
        },
        (state, packet) => Ok(
            spec_silent_step(
                StateV::Finished(
                    Err(ErrorV::UnexpectedPacket { state_kind: spec_kind(state), packet }),
                ),
            ),
        ),
    }
}

impl State {
    /// The discriminant of this state.
    pub fn kind(&self) -> (k: StateKind)
        ensures
            k == spec_kind(self@),
    {
        match self {
            State::Idle => StateKind::Idle,
            State::Reading { .. } => StateKind::Reading,
            State::Writing { .. } => StateKind::Writing,
            State::Verifying { .. } => StateKind::Verifying,
            State::Fixing { .. } => StateKind::Fixing,
            State::Finished(_) => StateKind::Finished,
        }
    }

    /// Consumes the current state and one decoded packet and produces the
    /// next state and everything the caller must do, exactly as
    /// [`spec_transition`] prescribes.
    ///
    /// The only `Err` is `InvalidRegionBounds`, for a `Ready` under a read
    /// command whose region has `end < start`; every other irregularity
    /// lands the session in `Finished(Err(..))` instead.
    pub fn transition(self, packet: Packet, opts: &UserOptions) -> (r: Result<Step, Error>)
        requires
            self@ is Reading && packet@ is Chunk ==> self@->Reading_progress
                + packet@->Chunk_data.len() <= usize::MAX,
        ensures
            (r matches Ok(step) ==> spec_transition(self@, packet@, opts@) matches Ok(sv)
                && step@ == sv),
            (r matches Err(e) ==> spec_transition(self@, packet@, opts@) matches Err(ev)
                && e@ == ev),
    {
        let ghost s0 = self@;
        let ghost p0 = packet@;
        match (self, packet) {
            (_, Packet::Ready) => dispatch(opts),
            (state, Packet::Print(text)) => {
                let mut effects: Vec<Effect> = Vec::new();
                effects.push(Effect::Print(text));
                let step = Step { next: state, effects, wire: Vec::new(), output: Vec::new() };
                proof {
                    assert(spec_transition(s0, p0, opts@) matches Ok(sv) && step@ =~~= sv);
                }
                Ok(step)
            },
            (_, Packet::InvalidChecksum { expected, computed }) => {
                let step = silent_step(
                    State::Finished(Err(Error::ChecksumMismatch { expected, computed })),
                );
                proof {
                    assert(spec_transition(s0, p0, opts@) matches Ok(sv) && step@ =~~= sv);
                }
                Ok(step)
            },
            (
                State::Reading { progress, total },
                Packet::Chunk { data: chunk_data, checksum },
            ) => {
                let computed_checksum = calculate_checksum(chunk_data.as_slice());
                if checksum != computed_checksum {
                    let step = silent_step(
                        State::Finished(
                            Err(
                                Error::ChecksumMismatch {
                                    expected: checksum,
                                    computed: computed_checksum,
                                },
                            ),
                        ),
                    );
                    proof {
                        assert(spec_transition(s0, p0, opts@) matches Ok(sv) && step@ =~~= sv);
                    }
                    Ok(step)
                } else {
                    let new_progress = progress + chunk_data.len();
                    let mut effects: Vec<Effect> = Vec::new();
                    effects.push(Effect::Progress { done: new_progress, total });
                    let mut wire: Vec<u8> = Vec::new();
                    wire.push(0xFF);
                    let step = Step {
                        next: State::Reading { progress: new_progress, total },
                        effects,
                        wire,
                        output: chunk_data,
                    };
                    proof {
                        assert(spec_transition(s0, p0, opts@) matches Ok(sv) && step@ =~~= sv);
                    }
                    Ok(step)
                }
            },
            (State::Reading { .. }, Packet::ReadEnd) => {
                let mut effects: Vec<Effect> = Vec::new();
                effects.push(Effect::ProgressEnd);
                effects.push(Effect::ReadComplete);
                let step = Step {
                    next: State::Finished(Ok(())),
                    effects,
                    wire: Vec::new(),
                    output: Vec::new(),
                };
                proof {
                    assert(spec_transition(s0, p0, opts@) matches Ok(sv) && step@ =~~= sv);
                }
                Ok(step)
            },
            (State::Writing { current_byte, data, verify }, Packet::ChunkRequest) => {
                if current_byte >= data.len() {
                    let mut effects: Vec<Effect> = Vec::new();
                    effects.push(Effect::ProgressEnd);
                    effects.push(Effect::WriteComplete { bytes: data.len() });
                    let mut wire: Vec<u8> = Vec::new();
                    wire.push(0x00);
                    let next = if verify {
                        effects.push(Effect::PrintLn(String::from_str("Verifying...")));
                        State::Verifying {
                            current_byte: 0,
                            data,
                            mismatches: Vec::new(),
                            fix: true,
                        }
                    } else {
                        State::Finished(Ok(()))
                    };
                    let step = Step { next, effects, wire, output: Vec::new() };
                    proof {
                        assert(spec_transition(s0, p0, opts@) matches Ok(sv) && step@ =~~= sv);
                    }
                    Ok(step)
                } else {
                    let mut cursor = current_byte;
                    let wire = send_data_chunk(data.as_slice(), &mut cursor);
                    let mut effects: Vec<Effect> = Vec::new();
                    effects.push(Effect::Progress { done: cursor, total: data.len() });
                    let step = Step {
                        next: State::Writing { current_byte: cursor, data, verify },
                        effects,
                        wire,
                        output: Vec::new(),
                    };
                    proof {
                        assert(spec_transition(s0, p0, opts@) matches Ok(sv) && step@ =~~= sv);
                    }
                    Ok(step)
                }
            },
            (
                State::Verifying { current_byte, data, mut mismatches, fix },
                Packet::ByteMismatch { address, expected, .. },
            ) => {
                let mut effects: Vec<Effect> = Vec::new();
                effects.push(
                    Effect::VerifyProgress {
                        done: current_byte,
                        total: data.len(),
                        mismatches: mismatches.len(),
                    },
                );
                mismatches.push(ByteMismatch { address, expected });
                let step = Step {
                    next: State::Verifying { current_byte, data, mismatches, fix },
                    effects,
                    wire: Vec::new(),
                    output: Vec::new(),
                };
                proof {
                    assert(spec_transition(s0, p0, opts@) matches Ok(sv) && step@ =~~= sv);
                }
                Ok(step)
            },
            (State::Verifying { current_byte, data, mismatches, fix }, Packet::ChunkRequest) => {
                if current_byte >= data.len() {
                    let mut effects: Vec<Effect> = Vec::new();
                    effects.push(Effect::ProgressEnd);
                    let mut wire: Vec<u8> = Vec::new();
                    wire.push(0x00);
                    let next = if mismatches.is_empty() {
                        effects.push(
                            Effect::PrintLn(String::from_str("No mismatches found.")),
                        );
                        State::Finished(Ok(()))
                    } else {
                        effects.push(Effect::MismatchSummary { count: mismatches.len() });
                        if fix {
                            State::Fixing { mismatches, current: 0 }
                        } else {
                            State::Finished(Ok(()))
                        }
                    };
                    let step = Step { next, effects, wire, output: Vec::new() };
                    proof {
                        assert(spec_transition(s0, p0, opts@) matches Ok(sv) && step@ =~~= sv);
                    }
                    Ok(step)
                } else {
                    let mut cursor = current_byte;
                    let wire = send_data_chunk(data.as_slice(), &mut cursor);
                    let mut effects: Vec<Effect> = Vec::new();
                    effects.push(
                        Effect::VerifyProgress {
                            done: cursor,
                            total: data.len(),
                            mismatches: mismatches.len(),
                        },
                    );
                    let step = Step {
                        next: State::Verifying { current_byte: cursor, data, mismatches, fix },
                        effects,
                        wire,
                        output: Vec::new(),
                    };
                    proof {
                        assert(spec_transition(s0, p0, opts@) matches Ok(sv) && step@ =~~= sv);
                    }
                    Ok(step)
                }
            },
            (State::Fixing { mismatches, current }, Packet::ByteRequest) => {
                if current >= mismatches.len() {
                    let mut effects: Vec<Effect> = Vec::new();
                    effects.push(Effect::ProgressEnd);
                    effects.push(
                        Effect::PrintLn(String::from_str("Mismatches fixed successfully.")),
                    );
                    let mut wire: Vec<u8> = Vec::new();
                    wire.push(0xFF);
                    wire.push(0xFF);
                    let step = Step {
                        next: State::Finished(Ok(())),
                        effects,
                        wire,
                        output: Vec::new(),
                    };
                    proof {
                        assert(spec_transition(s0, p0, opts@) matches Ok(sv) && step@ =~~= sv);
                    }
                    Ok(step)
                } else {
                    let mismatch = mismatches[current];
                    let sent = current + 1;
                    let mut wire: Vec<u8> = Vec::new();
                    wire.push((mismatch.address / 256) as u8);
                    wire.push((mismatch.address % 256) as u8);
                    wire.push(mismatch.expected);
                    let mut effects: Vec<Effect> = Vec::new();
                    effects.push(Effect::Progress { done: sent, total: mismatches.len() });
                    let step = Step {
                        next: State::Fixing { mismatches, current: sent },
                        effects,
                        wire,
                        output: Vec::new(),
                    };
                    proof {
                        assert(spec_transition(s0, p0, opts@) matches Ok(sv) && step@ =~~= sv);
                    }
                    Ok(step)
                }
            },
            (state, packet) => {
                let state_kind = state.kind();
                let step = silent_step(
                    State::Finished(Err(Error::UnexpectedPacket { state_kind, packet })),
                );
                proof {
                    assert(spec_transition(s0, p0, opts@) matches Ok(sv) && step@ =~~= sv);
                }
                Ok(step)
            },
        }
    }
}

/// A step that only moves to `next`, with nothing to render or send.
fn silent_step(next: State) -> (step: Step)
    ensures
        step@ == spec_silent_step(next@),
{
    let step = Step { next, effects: Vec::new(), wire: Vec::new(), output: Vec::new() };
    proof {
        assert(step@ =~~= spec_silent_step(step.next@));
    }
    step
}

/// Performs command dispatch for a `Ready` packet, exactly as
/// [`spec_dispatch`] prescribes.
fn dispatch(opts: &UserOptions) -> (r: Result<Step, Error>)
    ensures
        (r matches Ok(step) ==> spec_dispatch(opts@) matches Ok(sv) && step@ == sv),
        (r matches Err(e) ==> spec_dispatch(opts@) matches Err(ev) && e@ == ev),
{
    match &opts.command {
        UserCommand::Read { start, end } => {
            let start = *start;
            let end = *end;
            if end < start {
                return Err(Error::InvalidRegionBounds);
            }
            let mut effects: Vec<Effect> = Vec::new();
            effects.push(Effect::PrintLn(String::from_str("Initiating EEPROM read...")));
            let mut wire: Vec<u8> = Vec::new();
            wire.push(0x00);
            wire.push((start / 256) as u8);
            wire.push((start % 256) as u8);
            wire.push((end / 256) as u8);
            wire.push((end % 256) as u8);
            let step = Step {
                next: State::Reading { progress: 0, total: (end - start) as usize },
                effects,
                wire,
                output: Vec::new(),
            };
            proof {
                assert(spec_dispatch(opts@) matches Ok(sv) && step@ =~~= sv);
            }
            Ok(step)
        },
        UserCommand::Write { data, verify } => {
            let verify = *verify;
            let payload = vstd::slice::slice_to_vec(data.as_slice());
            let mut effects: Vec<Effect> = Vec::new();
            effects.push(Effect::PrintLn(String::from_str("Initiating EEPROM write...")));
            let mut wire: Vec<u8> = Vec::new();
            wire.push(0x01);
            wire.push(if verify { 1 } else { 0 });
            let step = Step {
                next: State::Writing { current_byte: 0, data: payload, verify },
                effects,
                wire,
                output: Vec::new(),
            };
            proof {
                assert(spec_dispatch(opts@) matches Ok(sv) && step@ =~~= sv);
            }
            Ok(step)
        },
        UserCommand::Verify { data, fix } => {
            let fix = *fix;
            let payload = vstd::slice::slice_to_vec(data.as_slice());
            let mut effects: Vec<Effect> = Vec::new();
            effects.push(
                Effect::PrintLn(String::from_str("Initiating EEPROM verification...")),
            );
            let mut wire: Vec<u8> = Vec::new();
            wire.push(0x02);
            wire.push(if fix { 1 } else { 0 });
            let step = Step {
                next: State::Verifying {
                    current_byte: 0,
                    data: payload,
                    mismatches: Vec::new(),
                    fix,
                },
                effects,
                wire,
                output: Vec::new(),
            };
            proof {
                assert(spec_dispatch(opts@) matches Ok(sv) && step@ =~~= sv);
            }
            Ok(step)
        },
    }
}

} // verus!
