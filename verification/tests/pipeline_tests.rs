use plane_tracker::{record_line, start_transition, stop_transition, ReceiverState};

#[test]
fn recorded_lines_carry_timestamp_separator_and_newline() {
    let framed = record_line(b"2024-01-02 10:00:00.123456", b"MSG,3,111");
    assert_eq!(framed, b"2024-01-02 10:00:00.123456;MSG,3,111\n".to_vec());
}

#[test]
fn recording_an_empty_line_still_frames_it() {
    let framed = record_line(b"2024-01-02 10:00:00.123456", b"");
    assert_eq!(framed, b"2024-01-02 10:00:00.123456;\n".to_vec());
}

#[test]
fn starting_while_disconnected_needs_no_stop() {
    let (state, must_stop_first) =
        start_transition(ReceiverState::Disconnected, b"localhost:30003".to_vec());
    assert!(!must_stop_first);
    match state {
        ReceiverState::Streaming { server_address } => {
            assert_eq!(server_address, b"localhost:30003".to_vec());
        }
        other => panic!("unexpected state: {:?}", other),
    }
}

#[test]
fn starting_while_streaming_stops_the_old_connection_first() {
    let (state, _) = start_transition(ReceiverState::Disconnected, b"old:30003".to_vec());
    let (state, must_stop_first) = start_transition(state, b"new:30003".to_vec());
    assert!(must_stop_first);
    match state {
        ReceiverState::Streaming { server_address } => {
            assert_eq!(server_address, b"new:30003".to_vec());
        }
        other => panic!("unexpected state: {:?}", other),
    }
}

#[test]
fn stopping_yields_the_address_once_and_is_then_a_no_op() {
    let (state, _) = start_transition(ReceiverState::Disconnected, b"srv:30003".to_vec());
    let (state, prev) = stop_transition(state);
    assert_eq!(prev, Some(b"srv:30003".to_vec()));
    assert!(matches!(state, ReceiverState::Disconnected));
    let (state, prev) = stop_transition(state);
    assert_eq!(prev, None);
    assert!(matches!(state, ReceiverState::Disconnected));
}
