use radio_pipeline::encoder::{
    EncodedStream, EncoderAction, EncoderOutput, InitError, InitOutcome, SessionState, Upstream,
    ENCODER_CHANNELS, ENCODER_QUALITY, ENCODER_SAMPLE_RATE, FLUSH_CAPACITY,
};

fn session() -> EncodedStream<()> {
    EncodedStream::new((), InitOutcome::Configured(0)).unwrap()
}

#[test]
fn codec_settings() {
    assert_eq!(ENCODER_CHANNELS, 2);
    assert_eq!(ENCODER_SAMPLE_RATE, 44_100);
    assert_eq!(ENCODER_QUALITY, 2);
    assert_eq!(FLUSH_CAPACITY, 7200);
}

#[test]
fn no_handle_gives_no_session() {
    assert_eq!(EncodedStream::new((), InitOutcome::NoHandle).err(), Some(InitError::NoHandle));
}

#[test]
fn rejected_parameters_give_no_session() {
    assert_eq!(
        EncodedStream::new((), InitOutcome::Configured(-1)).err(),
        Some(InitError::ParamsRejected)
    );
    assert_eq!(
        EncodedStream::new((), InitOutcome::Configured(i32::MIN)).err(),
        Some(InitError::ParamsRejected)
    );
}

#[test]
fn accepted_parameters_give_an_open_session() {
    for status in [0, 1, i32::MAX] {
        let s = EncodedStream::new(vec![1u8], InitOutcome::Configured(status)).unwrap();
        assert_eq!(s.state(), SessionState::Open);
    }
}

#[test]
fn session_keeps_its_input() {
    let mut s = EncodedStream::new(vec![1u8, 2], InitOutcome::Configured(0)).unwrap();
    assert_eq!(s.input_mut().pop(), Some(2));
    assert_eq!(s.on_input(Upstream::Pending), EncoderAction::Wait);
    assert_eq!(s.input_mut().pop(), Some(1));
    assert_eq!(s.input_mut().pop(), None);
}

#[test]
fn pending_input_waits() {
    let mut s = session();
    assert_eq!(s.on_input(Upstream::Pending), EncoderAction::Wait);
    assert_eq!(s.state(), SessionState::Open);
}

#[test]
fn chunk_is_encoded_into_a_generous_buffer() {
    let mut s = session();
    assert_eq!(
        s.on_input(Upstream::Chunk(1152)),
        EncoderAction::Encode { frames: 1152, capacity: 1152 + 384 + 7200 }
    );
    assert_eq!(
        s.on_input(Upstream::Chunk(0)),
        EncoderAction::Encode { frames: 0, capacity: 7200 }
    );
    assert_eq!(
        s.on_input(Upstream::Chunk(4)),
        EncoderAction::Encode { frames: 4, capacity: 4 + 1 + 7200 }
    );
    assert_eq!(s.state(), SessionState::Open);
}

#[test]
fn largest_chunk_that_fits_is_encoded() {
    let mut s = session();
    assert_eq!(
        s.on_input(Upstream::Chunk(1_610_607_335)),
        EncoderAction::Encode { frames: 1_610_607_335, capacity: i32::MAX - 1 }
    );
    assert_eq!(s.state(), SessionState::Open);
}

#[test]
fn chunk_too_large_for_the_codec_fails_the_session() {
    let mut s = session();
    assert_eq!(s.on_input(Upstream::Chunk(1_610_607_336)), EncoderAction::Finish);
    assert_eq!(s.state(), SessionState::Failed);
    assert_eq!(s.on_input(Upstream::Chunk(10)), EncoderAction::Finish);
    let mut s = session();
    assert_eq!(s.on_input(Upstream::Chunk(usize::MAX)), EncoderAction::Finish);
    assert_eq!(s.state(), SessionState::Failed);
}

#[test]
fn end_of_input_flushes_and_closes_once() {
    let mut s = session();
    assert_eq!(s.on_input(Upstream::End), EncoderAction::FlushAndClose { capacity: 7200 });
    assert_eq!(s.state(), SessionState::Closed);
    assert_eq!(s.on_input(Upstream::End), EncoderAction::Finish);
    assert_eq!(s.on_input(Upstream::Chunk(10)), EncoderAction::Finish);
    assert_eq!(s.on_input(Upstream::Pending), EncoderAction::Finish);
    assert!(!s.teardown());
}

#[test]
fn encoded_bytes_are_cut_to_length() {
    let mut s = session();
    match s.on_encoded(3, vec![9, 8, 7, 0, 0, 0]) {
        EncoderOutput::Chunk(bytes) => assert_eq!(bytes, vec![9, 8, 7]),
        other => panic!("bytes were due, not {:?}", other),
    }
    match s.on_encoded(6, vec![9, 8, 7, 1, 2, 3]) {
        EncoderOutput::Chunk(bytes) => assert_eq!(bytes, vec![9, 8, 7, 1, 2, 3]),
        other => panic!("bytes were due, not {:?}", other),
    }
    assert_eq!(s.state(), SessionState::Open);
}

#[test]
fn length_beyond_the_buffer_hands_on_the_buffer() {
    let mut s = session();
    match s.on_encoded(100, vec![1, 2]) {
        EncoderOutput::Chunk(bytes) => assert_eq!(bytes, vec![1, 2]),
        other => panic!("bytes were due, not {:?}", other),
    }
}

#[test]
fn empty_output_is_never_handed_on() {
    let mut s = session();
    assert!(matches!(s.on_encoded(0, vec![0; 7200]), EncoderOutput::Nothing));
    assert!(matches!(s.on_encoded(5, Vec::new()), EncoderOutput::Nothing));
    assert_eq!(s.state(), SessionState::Open);
}

#[test]
fn negative_length_ends_the_sequence() {
    let mut s = session();
    assert!(matches!(s.on_encoded(-1, vec![1, 2, 3]), EncoderOutput::End));
    assert_eq!(s.state(), SessionState::Failed);
    assert_eq!(s.on_input(Upstream::Chunk(10)), EncoderAction::Finish);
    assert_eq!(s.on_input(Upstream::End), EncoderAction::Finish);
    assert!(matches!(s.on_encoded(3, vec![1, 2, 3]), EncoderOutput::End));
    assert_eq!(s.state(), SessionState::Failed);
}

#[test]
fn failed_session_is_released_at_teardown() {
    let mut s = session();
    s.on_encoded(-3, Vec::new());
    assert!(s.teardown());
    assert_eq!(s.state(), SessionState::Closed);
    assert!(!s.teardown());
}

#[test]
fn flush_with_data_hands_on_the_last_bytes() {
    let s = session();
    assert_eq!(s.on_flushed(2, vec![5, 6, 0, 0]), Some(vec![5, 6]));
    assert_eq!(s.on_flushed(4, vec![5, 6, 7, 8]), Some(vec![5, 6, 7, 8]));
}

#[test]
fn flush_without_data_hands_on_nothing() {
    let s = session();
    assert_eq!(s.on_flushed(0, vec![0; 7200]), None);
    assert_eq!(s.on_flushed(-1, vec![1; 7200]), None);
    assert_eq!(s.on_flushed(3, Vec::new()), None);
}

#[test]
fn teardown_releases_an_open_session_once() {
    let mut s = session();
    assert!(s.teardown());
    assert_eq!(s.state(), SessionState::Closed);
    assert!(!s.teardown());
    assert!(!s.teardown());
    assert_eq!(s.on_input(Upstream::Chunk(1)), EncoderAction::Finish);
    assert!(matches!(s.on_encoded(1, vec![1]), EncoderOutput::End));
}

#[test]
fn every_run_releases_exactly_once() {
    // All runs of four events over a small alphabet, each ended by teardown.
    let events = 5usize;
    for code in 0..events.pow(4) {
        let mut s = session();
        let mut releases = 0;
        let mut c = code;
        for _ in 0..4 {
            match c % events {
                0 => {
                    s.on_input(Upstream::Pending);
                }
                1 => {
                    if let EncoderAction::FlushAndClose { .. } = s.on_input(Upstream::End) {
                        releases += 1;
                    }
                }
                2 => {
                    s.on_input(Upstream::Chunk(100));
                    s.on_encoded(10, vec![0; 7333]);
                }
                3 => {
                    s.on_encoded(-1, Vec::new());
                }
                _ => {
                    if s.teardown() {
                        releases += 1;
                    }
                }
            }
            c /= events;
        }
        if s.teardown() {
            releases += 1;
        }
        assert_eq!(releases, 1, "run {}", code);
        assert_eq!(s.state(), SessionState::Closed);
    }
}
