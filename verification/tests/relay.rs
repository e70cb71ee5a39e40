use tunnel_proxy::relay::{Relay, RelayAction, RelayError, RelayEvent, RelayPhase, CHUNK_SIZE};

/// A scripted source and a recording destination.
struct Script {
    reads: Vec<Result<Vec<u8>, String>>,
    write_error: Option<String>,
    shutdown_error: Option<String>,
    written: Vec<u8>,
    writes: usize,
    shutdowns: usize,
}

impl Script {
    fn reading(chunks: &[&[u8]]) -> Script {
        Script {
            reads: chunks.iter().map(|chunk| Ok(chunk.to_vec())).collect(),
            write_error: None,
            shutdown_error: None,
            written: Vec::new(),
            writes: 0,
            shutdowns: 0,
        }
    }

    fn read(&mut self) -> Result<Vec<u8>, String> {
        if self.reads.is_empty() {
            Ok(Vec::new())
        } else {
            self.reads.remove(0)
        }
    }
}

/// Runs a relay against the script until it reports its result.
fn drive(script: &mut Script) -> (Relay, Result<usize, RelayError<String>>) {
    let mut relay = Relay::new();
    let mut event = RelayEvent::Start;
    loop {
        let (next, action) = relay.step(event);
        relay = next;
        event = match action {
            RelayAction::Read => match script.read() {
                Ok(data) => RelayEvent::Read(data),
                Err(error) => RelayEvent::Failed(error),
            },
            RelayAction::Write(data) => match script.write_error.take() {
                Some(error) => RelayEvent::Failed(error),
                None => {
                    script.written.extend_from_slice(&data);
                    script.writes += 1;
                    RelayEvent::Written
                }
            },
            RelayAction::Shutdown => match script.shutdown_error.take() {
                Some(error) => RelayEvent::Failed(error),
                None => {
                    script.shutdowns += 1;
                    RelayEvent::Closed
                }
            },
            RelayAction::Finish(total) => return (relay, Ok(total)),
            RelayAction::Abort(error) => return (relay, Err(error)),
        };
    }
}

#[test]
fn test_relay() {
    let data = b"tokio katsu sando";
    let mut script = Script::reading(&[data, data]);
    let (_, stats) = drive(&mut script);
    let stats = stats.unwrap();
    assert_eq!(stats, data.len() * 2);
}

#[test]
fn relay_starts_idle_with_nothing_counted() {
    let relay = Relay::new();
    assert_eq!(relay, Relay { phase: RelayPhase::Idle, total: 0 });
    assert_eq!(CHUNK_SIZE, 16 * 1024);
}

#[test]
fn relay_asks_for_a_read_first() {
    let (relay, action) = Relay::new().step::<String>(RelayEvent::Start);
    assert_eq!(action, RelayAction::Read);
    assert_eq!(relay, Relay { phase: RelayPhase::Reading, total: 0 });
}

#[test]
fn relay_hands_each_chunk_on_before_reading_again() {
    let (relay, _) = Relay::new().step::<String>(RelayEvent::Start);
    let (relay, action) = relay.step::<String>(RelayEvent::Read(vec![1, 2, 3]));
    assert_eq!(action, RelayAction::Write(vec![1, 2, 3]));
    assert_eq!(relay, Relay { phase: RelayPhase::Writing, total: 3 });
    let (relay, action) = relay.step::<String>(RelayEvent::Written);
    assert_eq!(action, RelayAction::Read);
    assert_eq!(relay, Relay { phase: RelayPhase::Reading, total: 3 });
    let (relay, action) = relay.step::<String>(RelayEvent::Read(vec![4, 5]));
    assert_eq!(action, RelayAction::Write(vec![4, 5]));
    assert_eq!(relay, Relay { phase: RelayPhase::Writing, total: 5 });
}

#[test]
fn relay_delivers_the_bytes_in_order_without_loss_or_repeat() {
    let mut script = Script::reading(&[b"GET / HTTP", b"/1.1\r\n", b"\r\n", b"body"]);
    let (relay, total) = drive(&mut script);
    assert_eq!(script.written, b"GET / HTTP/1.1\r\n\r\nbody".to_vec());
    assert_eq!(script.writes, 4);
    assert_eq!(total, Ok(22));
    assert_eq!(relay, Relay { phase: RelayPhase::Finished, total: 22 });
}

#[test]
fn relay_count_does_not_depend_on_chunk_boundaries() {
    let stream: Vec<u8> = (0..1000u32).map(|i| (i % 251) as u8).collect();
    let whole: Vec<&[u8]> = vec![&stream[..]];
    let bytes: Vec<&[u8]> = stream.chunks(1).collect();
    let uneven: Vec<&[u8]> = vec![&stream[..1], &stream[1..700], &stream[700..]];
    for chunks in [whole, bytes, uneven] {
        let mut script = Script::reading(&chunks);
        let (_, total) = drive(&mut script);
        assert_eq!(total, Ok(1000));
        assert_eq!(script.written, stream);
    }
}

#[test]
fn relay_of_an_empty_stream_counts_zero() {
    let mut script = Script::reading(&[]);
    let (relay, total) = drive(&mut script);
    assert_eq!(total, Ok(0));
    assert_eq!(script.writes, 0);
    assert_eq!(script.shutdowns, 1);
    assert!(script.written.is_empty());
    assert_eq!(relay, Relay { phase: RelayPhase::Finished, total: 0 });
}

#[test]
fn relay_half_closes_once_and_only_at_the_end_of_the_stream() {
    let (relay, _) = Relay::new().step::<String>(RelayEvent::Start);
    let (relay, action) = relay.step::<String>(RelayEvent::Read(vec![9]));
    assert_eq!(action, RelayAction::Write(vec![9]));
    let (relay, action) = relay.step::<String>(RelayEvent::Written);
    assert_eq!(action, RelayAction::Read);
    let (relay, action) = relay.step::<String>(RelayEvent::Read(Vec::new()));
    assert_eq!(action, RelayAction::Shutdown);
    assert_eq!(relay, Relay { phase: RelayPhase::Closing, total: 1 });
    let (relay, action) = relay.step::<String>(RelayEvent::Closed);
    assert_eq!(action, RelayAction::Finish(1));
    assert_eq!(relay, Relay { phase: RelayPhase::Finished, total: 1 });

    let mut script = Script::reading(&[b"a", b"b", b"c"]);
    drive(&mut script);
    assert_eq!(script.shutdowns, 1);
}

#[test]
fn relay_accepts_a_full_chunk() {
    let (relay, _) = Relay::new().step::<String>(RelayEvent::Start);
    let (relay, action) = relay.step::<String>(RelayEvent::Read(vec![7; CHUNK_SIZE]));
    assert_eq!(action, RelayAction::Write(vec![7; CHUNK_SIZE]));
    assert_eq!(relay, Relay { phase: RelayPhase::Writing, total: 16384 });
}

#[test]
fn relay_refuses_more_than_a_chunk() {
    let (relay, _) = Relay::new().step::<String>(RelayEvent::Start);
    let (relay, action) = relay.step::<String>(RelayEvent::Read(vec![7; CHUNK_SIZE + 1]));
    assert_eq!(action, RelayAction::Abort(RelayError::Protocol));
    assert_eq!(relay, Relay { phase: RelayPhase::Failed, total: 0 });
}

#[test]
fn relay_read_error_aborts_without_half_close() {
    let mut script = Script::reading(&[b"abc"]);
    script.reads.push(Err("reset".to_string()));
    let (relay, result) = drive(&mut script);
    assert_eq!(result, Err(RelayError::Io("reset".to_string())));
    assert_eq!(script.written, b"abc".to_vec());
    assert_eq!(script.shutdowns, 0);
    assert_eq!(relay, Relay { phase: RelayPhase::Failed, total: 3 });
}

#[test]
fn relay_write_error_aborts_without_reading_on() {
    let mut script = Script::reading(&[b"abc", b"def"]);
    script.write_error = Some("broken pipe".to_string());
    let (relay, result) = drive(&mut script);
    assert_eq!(result, Err(RelayError::Io("broken pipe".to_string())));
    assert!(script.written.is_empty());
    assert_eq!(script.reads.len(), 1);
    assert_eq!(script.shutdowns, 0);
    assert_eq!(relay.phase, RelayPhase::Failed);
}

#[test]
fn relay_shutdown_error_aborts() {
    let mut script = Script::reading(&[b"abc"]);
    script.shutdown_error = Some("not connected".to_string());
    let (relay, result) = drive(&mut script);
    assert_eq!(result, Err(RelayError::Io("not connected".to_string())));
    assert_eq!(script.written, b"abc".to_vec());
    assert_eq!(relay, Relay { phase: RelayPhase::Failed, total: 3 });
}

#[test]
fn relay_aborts_on_events_out_of_turn() {
    let fresh = Relay::new();
    let (relay, action) = fresh.step::<String>(RelayEvent::Written);
    assert_eq!(action, RelayAction::Abort(RelayError::Protocol));
    assert_eq!(relay.phase, RelayPhase::Failed);
    let (_, action) = fresh.step::<String>(RelayEvent::Read(vec![1]));
    assert_eq!(action, RelayAction::Abort(RelayError::Protocol));
    let (_, action) = fresh.step(RelayEvent::Failed("early".to_string()));
    assert_eq!(action, RelayAction::Abort(RelayError::Protocol));

    let reading = Relay { phase: RelayPhase::Reading, total: 4 };
    for event in [RelayEvent::Start, RelayEvent::Written, RelayEvent::Closed] {
        let (relay, action) = reading.step::<String>(event);
        assert_eq!(action, RelayAction::Abort(RelayError::Protocol));
        assert_eq!(relay, Relay { phase: RelayPhase::Failed, total: 4 });
    }

    let writing = Relay { phase: RelayPhase::Writing, total: 4 };
    for event in [RelayEvent::Start, RelayEvent::Read(vec![1]), RelayEvent::Closed] {
        let (_, action) = writing.step::<String>(event);
        assert_eq!(action, RelayAction::Abort(RelayError::Protocol));
    }

    let closing = Relay { phase: RelayPhase::Closing, total: 4 };
    for event in [RelayEvent::Start, RelayEvent::Read(Vec::new()), RelayEvent::Written] {
        let (_, action) = closing.step::<String>(event);
        assert_eq!(action, RelayAction::Abort(RelayError::Protocol));
    }
}

#[test]
fn relay_that_is_over_takes_nothing_more() {
    for phase in [RelayPhase::Finished, RelayPhase::Failed] {
        let over = Relay { phase, total: 12 };
        for event in [
            RelayEvent::Start,
            RelayEvent::Read(vec![1]),
            RelayEvent::Written,
            RelayEvent::Closed,
            RelayEvent::Failed("late".to_string()),
        ] {
            let (relay, action) = over.step(event);
            assert_eq!(action, RelayAction::Abort(RelayError::Protocol));
            assert_eq!(relay, Relay { phase: RelayPhase::Failed, total: 12 });
        }
    }
}
