use uploader::engine::{Effect, Error, State, StateKind, Step, UserCommand, UserOptions};
use uploader::protocol::{calculate_checksum, Packet};

fn read_opts(start: u16, end: u16) -> UserOptions {
    UserOptions { command: UserCommand::Read { start, end } }
}

fn write_opts(data: Vec<u8>, verify: bool) -> UserOptions {
    UserOptions { command: UserCommand::Write { data, verify } }
}

fn verify_opts(data: Vec<u8>, fix: bool) -> UserOptions {
    UserOptions { command: UserCommand::Verify { data, fix } }
}

fn step(state: State, packet: Packet, opts: &UserOptions) -> Step {
    state.transition(packet, opts).unwrap()
}

#[test]
fn ready_dispatches_read() {
    let opts = read_opts(0x0010, 0x0814);
    let step = step(State::Idle, Packet::Ready, &opts);
    assert!(matches!(step.next, State::Reading { progress: 0, total: 0x0804 }));
    assert_eq!(step.wire, vec![0x00, 0x00, 0x10, 0x08, 0x14]);
    assert!(step.output.is_empty());
    assert_eq!(step.effects.len(), 1);
    assert!(matches!(&step.effects[0], Effect::PrintLn(t) if t == "Initiating EEPROM read..."));
}

#[test]
fn ready_rejects_inverted_read_region() {
    let opts = read_opts(5, 2);
    let err = State::Idle.transition(Packet::Ready, &opts).unwrap_err();
    assert!(matches!(err, Error::InvalidRegionBounds));
}

#[test]
fn ready_dispatches_write() {
    let opts = write_opts(vec![1, 2, 3], true);
    let step = step(State::Idle, Packet::Ready, &opts);
    match &step.next {
        State::Writing { current_byte, data, verify } => {
            assert_eq!(*current_byte, 0);
            assert_eq!(data, &vec![1, 2, 3]);
            assert!(*verify);
        }
        other => panic!("expected Writing, got {:?}", other),
    }
    assert_eq!(step.wire, vec![0x01, 0x01]);
    assert!(matches!(&step.effects[0], Effect::PrintLn(t) if t == "Initiating EEPROM write..."));
}

#[test]
fn ready_dispatches_verify() {
    let opts = verify_opts(vec![9, 9], false);
    let step = step(State::Idle, Packet::Ready, &opts);
    match &step.next {
        State::Verifying { current_byte, data, mismatches, fix } => {
            assert_eq!(*current_byte, 0);
            assert_eq!(data, &vec![9, 9]);
            assert!(mismatches.is_empty());
            assert!(!*fix);
        }
        other => panic!("expected Verifying, got {:?}", other),
    }
    assert_eq!(step.wire, vec![0x02, 0x00]);
    assert!(
        matches!(&step.effects[0], Effect::PrintLn(t) if t == "Initiating EEPROM verification...")
    );
}

#[test]
fn read_session_dumps_memory() {
    // A four-byte read: Ready, one correct chunk, then the end marker.
    let opts = read_opts(0, 4);
    let mut output: Vec<u8> = Vec::new();

    let s1 = step(State::Idle, Packet::Ready, &opts);
    output.extend_from_slice(&s1.output);

    let chunk = Packet::Chunk { data: vec![1, 2, 3, 4], checksum: calculate_checksum(&[1, 2, 3, 4]) };
    let s2 = step(s1.next, chunk, &opts);
    assert!(matches!(s2.next, State::Reading { progress: 4, total: 4 }));
    assert_eq!(s2.wire, vec![0xFF]);
    assert!(matches!(s2.effects[0], Effect::Progress { done: 4, total: 4 }));
    output.extend_from_slice(&s2.output);

    let s3 = step(s2.next, Packet::ReadEnd, &opts);
    output.extend_from_slice(&s3.output);
    assert!(matches!(s3.next, State::Finished(Ok(()))));
    assert!(matches!(s3.effects[0], Effect::ProgressEnd));
    assert!(matches!(s3.effects[1], Effect::ReadComplete));

    assert_eq!(output, vec![1, 2, 3, 4]);
}

#[test]
fn read_chunk_advances_progress_by_its_length() {
    let opts = read_opts(0, 32);
    let state = State::Reading { progress: 3, total: 32 };
    let chunk = Packet::Chunk { data: vec![7, 8], checksum: calculate_checksum(&[7, 8]) };
    let step = step(state, chunk, &opts);
    assert!(matches!(step.next, State::Reading { progress: 5, total: 32 }));
    assert_eq!(step.output, vec![7, 8]);
}

#[test]
fn read_chunk_with_bad_checksum_terminates() {
    let opts = read_opts(0, 4);
    let state = State::Reading { progress: 0, total: 4 };
    let good = calculate_checksum(&[1, 2, 3, 4]);
    let chunk = Packet::Chunk { data: vec![1, 2, 3, 4], checksum: good ^ 1 };
    let step = step(state, chunk, &opts);
    match step.next {
        State::Finished(Err(Error::ChecksumMismatch { expected, computed })) => {
            assert_eq!(expected, good ^ 1);
            assert_eq!(computed, good);
        }
        other => panic!("expected checksum failure, got {:?}", other),
    }
    // Nothing is written and nothing is acknowledged.
    assert!(step.output.is_empty());
    assert!(step.wire.is_empty());
    assert!(step.effects.is_empty());
}

#[test]
fn write_session_streams_in_chunks() {
    // A 20-byte payload goes out as a 16-byte chunk, then a 4-byte chunk;
    // the next request finds nothing left and completes the session.
    let payload: Vec<u8> = (100u8..120).collect();
    let opts = write_opts(payload.clone(), false);

    let s1 = step(State::Idle, Packet::Ready, &opts);

    let s2 = step(s1.next, Packet::ChunkRequest, &opts);
    assert!(matches!(s2.next, State::Writing { current_byte: 16, .. }));
    assert_eq!(s2.wire[0], 16);
    assert_eq!(&s2.wire[3..], &payload[..16]);
    assert!(matches!(s2.effects[0], Effect::Progress { done: 16, total: 20 }));

    let s3 = step(s2.next, Packet::ChunkRequest, &opts);
    assert!(matches!(s3.next, State::Writing { current_byte: 20, .. }));
    assert_eq!(s3.wire[0], 4);
    assert_eq!(&s3.wire[3..], &payload[16..]);

    let s4 = step(s3.next, Packet::ChunkRequest, &opts);
    assert!(matches!(s4.next, State::Finished(Ok(()))));
    assert_eq!(s4.wire, vec![0x00]);
    assert!(matches!(s4.effects[0], Effect::ProgressEnd));
    assert!(matches!(s4.effects[1], Effect::WriteComplete { bytes: 20 }));
}

#[test]
fn write_with_verify_hands_over_to_verifying() {
    let opts = write_opts(vec![1, 2], true);
    let state = State::Writing { current_byte: 2, data: vec![1, 2], verify: true };
    let step = step(state, Packet::ChunkRequest, &opts);
    match &step.next {
        State::Verifying { current_byte, data, mismatches, fix } => {
            assert_eq!(*current_byte, 0);
            assert_eq!(data, &vec![1, 2]);
            assert!(mismatches.is_empty());
            assert!(*fix);
        }
        other => panic!("expected Verifying, got {:?}", other),
    }
    assert_eq!(step.wire, vec![0x00]);
    assert!(matches!(step.effects[0], Effect::ProgressEnd));
    assert!(matches!(step.effects[1], Effect::WriteComplete { bytes: 2 }));
    assert!(matches!(&step.effects[2], Effect::PrintLn(t) if t == "Verifying..."));
}

#[test]
fn verify_session_queues_mismatches_in_arrival_order() {
    // Two mismatches arrive during the stream; the terminal request moves
    // to the fix phase with both queued, in arrival order.
    let payload = vec![1, 2, 3, 4];
    let opts = verify_opts(payload.clone(), true);

    let s1 = step(State::Idle, Packet::Ready, &opts);

    let m1 = Packet::ByteMismatch { address: 1, expected: 0xAA, found: 0x00 };
    let s2 = step(s1.next, m1, &opts);
    // The mismatch count shown is the count before this mismatch is recorded.
    assert!(matches!(
        s2.effects[0],
        Effect::VerifyProgress { done: 0, total: 4, mismatches: 0 }
    ));

    let s3 = step(s2.next, Packet::ChunkRequest, &opts);
    assert!(matches!(s3.next, State::Verifying { current_byte: 4, .. }));
    assert_eq!(&s3.wire[3..], &payload[..]);

    let m2 = Packet::ByteMismatch { address: 3, expected: 0xBB, found: 0x01 };
    let s4 = step(s3.next, m2, &opts);
    assert!(matches!(
        s4.effects[0],
        Effect::VerifyProgress { done: 4, total: 4, mismatches: 1 }
    ));

    let s5 = step(s4.next, Packet::ChunkRequest, &opts);
    match &s5.next {
        State::Fixing { mismatches, current } => {
            assert_eq!(*current, 0);
            assert_eq!(mismatches.len(), 2);
            assert_eq!((mismatches[0].address, mismatches[0].expected), (1, 0xAA));
            assert_eq!((mismatches[1].address, mismatches[1].expected), (3, 0xBB));
        }
        other => panic!("expected Fixing, got {:?}", other),
    }
    assert_eq!(s5.wire, vec![0x00]);
    assert!(matches!(s5.effects[0], Effect::ProgressEnd));
    assert!(matches!(s5.effects[1], Effect::MismatchSummary { count: 2 }));

    // The fix phase sends the corrections in that exact order, and the
    // stream-end sentinel only after the last one.
    let s6 = step(s5.next, Packet::ByteRequest, &opts);
    assert_eq!(s6.wire, vec![0x00, 0x01, 0xAA]);
    assert!(matches!(s6.next, State::Fixing { current: 1, .. }));

    let s7 = step(s6.next, Packet::ByteRequest, &opts);
    assert_eq!(s7.wire, vec![0x00, 0x03, 0xBB]);
    assert!(matches!(s7.next, State::Fixing { current: 2, .. }));

    let s8 = step(s7.next, Packet::ByteRequest, &opts);
    assert_eq!(s8.wire, vec![0xFF, 0xFF]);
    assert!(matches!(s8.next, State::Finished(Ok(()))));
    assert!(matches!(s8.effects[0], Effect::ProgressEnd));
    assert!(matches!(&s8.effects[1], Effect::PrintLn(t) if t == "Mismatches fixed successfully."));
}

#[test]
fn verify_without_mismatches_succeeds() {
    let opts = verify_opts(vec![1], true);
    let state = State::Verifying { current_byte: 1, data: vec![1], mismatches: Vec::new(), fix: true };
    let step = step(state, Packet::ChunkRequest, &opts);
    assert!(matches!(step.next, State::Finished(Ok(()))));
    assert_eq!(step.wire, vec![0x00]);
    assert!(matches!(step.effects[0], Effect::ProgressEnd));
    assert!(matches!(&step.effects[1], Effect::PrintLn(t) if t == "No mismatches found."));
}

#[test]
fn verify_without_fix_reports_and_stops() {
    let opts = verify_opts(vec![1], false);
    let mismatches = vec![uploader::engine::ByteMismatch { address: 0, expected: 9 }];
    let state = State::Verifying { current_byte: 1, data: vec![1], mismatches, fix: false };
    let step = step(state, Packet::ChunkRequest, &opts);
    assert!(matches!(step.next, State::Finished(Ok(()))));
    assert!(matches!(step.effects[1], Effect::MismatchSummary { count: 1 }));
}

#[test]
fn empty_write_payload_completes_on_first_request() {
    let opts = write_opts(Vec::new(), false);
    let s1 = step(State::Idle, Packet::Ready, &opts);
    let s2 = step(s1.next, Packet::ChunkRequest, &opts);
    assert!(matches!(s2.next, State::Finished(Ok(()))));
    assert!(matches!(s2.effects[1], Effect::WriteComplete { bytes: 0 }));
}

#[test]
fn print_packet_leaves_state_unchanged() {
    let opts = write_opts(vec![1, 2, 3], false);
    let state = State::Writing { current_byte: 1, data: vec![1, 2, 3], verify: false };
    let step = step(state, Packet::Print("device says hello".to_string()), &opts);
    match &step.next {
        State::Writing { current_byte, data, verify } => {
            assert_eq!(*current_byte, 1);
            assert_eq!(data, &vec![1, 2, 3]);
            assert!(!*verify);
        }
        other => panic!("expected Writing, got {:?}", other),
    }
    assert!(step.wire.is_empty());
    assert!(matches!(&step.effects[0], Effect::Print(t) if t == "device says hello"));
}

#[test]
fn invalid_checksum_report_terminates_any_state() {
    let opts = read_opts(0, 4);
    let state = State::Reading { progress: 2, total: 4 };
    let step = step(state, Packet::InvalidChecksum { expected: 7, computed: 9 }, &opts);
    assert!(matches!(
        step.next,
        State::Finished(Err(Error::ChecksumMismatch { expected: 7, computed: 9 }))
    ));
    assert!(step.wire.is_empty());
    assert!(step.effects.is_empty());
}

#[test]
fn unexpected_packet_in_idle_terminates() {
    let opts = read_opts(0, 4);
    let step = step(State::Idle, Packet::ChunkRequest, &opts);
    match step.next {
        State::Finished(Err(Error::UnexpectedPacket { state_kind, packet })) => {
            assert_eq!(state_kind, StateKind::Idle);
            assert!(matches!(packet, Packet::ChunkRequest));
        }
        other => panic!("expected UnexpectedPacket, got {:?}", other),
    }
    assert!(step.wire.is_empty());
    assert!(step.effects.is_empty());
}

#[test]
fn unexpected_packet_while_reading_terminates() {
    let opts = read_opts(0, 4);
    let state = State::Reading { progress: 0, total: 4 };
    let step = step(state, Packet::ByteRequest, &opts);
    match step.next {
        State::Finished(Err(Error::UnexpectedPacket { state_kind, packet })) => {
            assert_eq!(state_kind, StateKind::Reading);
            assert!(matches!(packet, Packet::ByteRequest));
        }
        other => panic!("expected UnexpectedPacket, got {:?}", other),
    }
}

#[test]
fn unexpected_packet_while_fixing_terminates() {
    let opts = verify_opts(vec![1], true);
    let state = State::Fixing { mismatches: Vec::new(), current: 0 };
    let step = step(state, Packet::ReadEnd, &opts);
    match step.next {
        State::Finished(Err(Error::UnexpectedPacket { state_kind, packet })) => {
            assert_eq!(state_kind, StateKind::Fixing);
            assert!(matches!(packet, Packet::ReadEnd));
        }
        other => panic!("expected UnexpectedPacket, got {:?}", other),
    }
}

#[test]
fn ready_mid_session_restarts_dispatch() {
    let opts = write_opts(vec![1, 2], false);
    let state = State::Writing { current_byte: 1, data: vec![1, 2], verify: false };
    let step = step(state, Packet::Ready, &opts);
    assert!(matches!(step.next, State::Writing { current_byte: 0, .. }));
    assert_eq!(step.wire, vec![0x01, 0x00]);
}

#[test]
fn state_kind_names_every_variant() {
    assert_eq!(State::Idle.kind(), StateKind::Idle);
    assert_eq!(State::Reading { progress: 0, total: 1 }.kind(), StateKind::Reading);
    assert_eq!(
        State::Writing { current_byte: 0, data: Vec::new(), verify: false }.kind(),
        StateKind::Writing
    );
    assert_eq!(
        State::Verifying { current_byte: 0, data: Vec::new(), mismatches: Vec::new(), fix: false }
            .kind(),
        StateKind::Verifying
    );
    assert_eq!(State::Fixing { mismatches: Vec::new(), current: 0 }.kind(), StateKind::Fixing);
    assert_eq!(State::Finished(Ok(())).kind(), StateKind::Finished);
}
