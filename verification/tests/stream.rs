use twitch_tts::piper::{ChunkStream, EngineCall, PiperAudioChunk, PiperStatus, StreamState};

fn chunk(samples: &[u8], is_last: bool) -> PiperAudioChunk {
    PiperAudioChunk { samples: samples.to_vec(), sample_rate: 22050, is_last }
}

#[test]
fn status_codes_stand_for_their_statuses() {
    assert_eq!(PiperStatus::from_code(0), PiperStatus::Okay);
    assert_eq!(PiperStatus::from_code(1), PiperStatus::Done);
    assert_eq!(PiperStatus::from_code(2), PiperStatus::Error);
    assert_eq!(PiperStatus::from_code(3), PiperStatus::Error);
    assert_eq!(PiperStatus::from_code(-1), PiperStatus::Error);
    assert_eq!(PiperStatus::from_code(i32::MAX), PiperStatus::Error);
    assert_eq!(PiperStatus::from_code(i32::MIN), PiperStatus::Error);
    assert_eq!(PiperStatus::Okay.code(), 0);
    assert_eq!(PiperStatus::Done.code(), 1);
    assert_eq!(PiperStatus::Error.code(), 2);
}

#[test]
fn a_new_stream_asks_for_the_start() {
    let stream = ChunkStream::new("hello world");
    assert_eq!(stream.text(), "hello world");
    assert_eq!(stream.state(), StreamState::Start);
    assert_eq!(stream.next_call(), EngineCall::Start);
    assert!(!stream.is_done());
    assert!(stream.audio().is_empty());
}

#[test]
fn a_started_stream_asks_for_chunks() {
    let mut stream = ChunkStream::new("hello");
    stream.on_started();
    assert_eq!(stream.state(), StreamState::Producing);
    assert_eq!(stream.next_call(), EngineCall::Next);
    stream.on_started();
    assert_eq!(stream.state(), StreamState::Producing);
}

#[test]
fn the_stream_ends_with_the_chunk_marked_last() {
    let mut stream = ChunkStream::new("hello");
    stream.on_started();
    stream.on_chunk(PiperStatus::Okay, &chunk(&[1, 2, 3, 4], false));
    assert_eq!(stream.next_call(), EngineCall::Next);
    stream.on_chunk(PiperStatus::Okay, &chunk(&[5, 6, 7, 8], true));
    assert!(stream.is_done());
    assert_eq!(stream.next_call(), EngineCall::Stop);
    assert_eq!(stream.audio(), &vec![1, 2, 3, 4, 5, 6, 7, 8]);
}

#[test]
fn the_stream_ends_with_the_status_done() {
    let mut stream = ChunkStream::new("hello");
    stream.on_started();
    stream.on_chunk(PiperStatus::Okay, &chunk(&[1, 2], false));
    stream.on_chunk(PiperStatus::Done, &chunk(&[], false));
    assert_eq!(stream.state(), StreamState::Done);
    assert_eq!(stream.into_audio(), vec![1, 2]);
}

#[test]
fn samples_that_come_with_the_status_done_are_kept() {
    let mut stream = ChunkStream::new("hello");
    stream.on_started();
    stream.on_chunk(PiperStatus::Done, &chunk(&[9, 9], false));
    assert!(stream.is_done());
    assert_eq!(stream.into_audio(), vec![9, 9]);
}

#[test]
fn both_signals_together_end_the_stream_once() {
    let mut stream = ChunkStream::new("hello");
    stream.on_started();
    stream.on_chunk(PiperStatus::Done, &chunk(&[1], true));
    assert!(stream.is_done());
    assert_eq!(stream.into_audio(), vec![1]);
}

#[test]
fn an_error_ends_the_stream_and_keeps_the_audio() {
    let mut stream = ChunkStream::new("hello");
    stream.on_started();
    stream.on_chunk(PiperStatus::Okay, &chunk(&[1, 2], false));
    stream.on_chunk(PiperStatus::Error, &chunk(&[3], false));
    assert_eq!(stream.state(), StreamState::Done);
    assert_eq!(stream.next_call(), EngineCall::Stop);
    assert_eq!(stream.into_audio(), vec![1, 2, 3]);
}

#[test]
fn nothing_is_taken_after_the_end() {
    let mut stream = ChunkStream::new("hello");
    stream.on_started();
    stream.on_chunk(PiperStatus::Okay, &chunk(&[1], false));
    stream.on_chunk(PiperStatus::Okay, &chunk(&[2], true));
    stream.on_chunk(PiperStatus::Okay, &chunk(&[3], false));
    stream.on_chunk(PiperStatus::Done, &chunk(&[4], true));
    stream.on_started();
    assert_eq!(stream.state(), StreamState::Done);
    assert_eq!(stream.into_audio(), vec![1, 2]);
}

#[test]
fn nothing_is_taken_before_the_start() {
    let mut stream = ChunkStream::new("hello");
    stream.on_chunk(PiperStatus::Okay, &chunk(&[1], false));
    stream.on_chunk(PiperStatus::Done, &chunk(&[2], true));
    assert_eq!(stream.state(), StreamState::Start);
    assert!(stream.audio().is_empty());
}

#[test]
fn chunks_without_samples_add_nothing() {
    let mut stream = ChunkStream::new("hello");
    stream.on_started();
    stream.on_chunk(PiperStatus::Okay, &chunk(&[], false));
    stream.on_chunk(PiperStatus::Okay, &chunk(&[7], false));
    stream.on_chunk(PiperStatus::Okay, &chunk(&[], false));
    assert_eq!(stream.state(), StreamState::Producing);
    assert_eq!(stream.audio(), &vec![7]);
}

#[test]
fn a_driven_stream_stops_at_the_first_terminal_reply() {
    let replies = vec![
        (0, chunk(&[1, 1], false)),
        (0, chunk(&[2, 2], false)),
        (1, chunk(&[3, 3], false)),
        (0, chunk(&[4, 4], true)),
    ];
    let mut stream = ChunkStream::new("hello");
    let mut calls = 0;
    let mut replies = replies.into_iter();
    loop {
        match stream.next_call() {
            EngineCall::Start => stream.on_started(),
            EngineCall::Next => {
                let (code, chunk) = replies.next().unwrap();
                calls += 1;
                stream.on_chunk(PiperStatus::from_code(code), &chunk);
            }
            EngineCall::Stop => break,
        }
    }
    assert_eq!(calls, 3);
    assert_eq!(stream.into_audio(), vec![1, 1, 2, 2, 3, 3]);
}
