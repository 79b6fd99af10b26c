use rouillefwd::direction::{Direction, Ending, IoAction, IoEvent, Phase, CHUNK_SIZE};

/// Runs a direction against a source that gives `chunks` one by one and then
/// ends, and a sink that takes at most `window` bytes at a time. Returns what
/// the sink took and how the direction ended.
fn carry(chunks: &[&[u8]], window: usize) -> (Vec<u8>, Option<Ending>) {
    let mut direction = Direction::new();
    let mut source = chunks.iter();
    let mut sink: Vec<u8> = Vec::new();
    let mut action = direction.wants();
    let mut steps = 0;
    loop {
        steps += 1;
        assert!(steps < 10_000, "the direction does not come to an end");
        let event = match action {
            IoAction::Read { limit } => match source.next() {
                Some(chunk) if chunk.len() > limit => panic!("a chunk beyond the limit"),
                Some(chunk) => IoEvent::Read(chunk.to_vec()),
                None => IoEvent::Read(Vec::new()),
            },
            IoAction::Write => {
                let offered = direction.pending();
                let n = offered.len().min(window);
                sink.extend_from_slice(&offered[..n]);
                IoEvent::Written(n)
            }
            IoAction::Stop => break,
        };
        action = direction.step(event);
    }
    (sink, direction.ending())
}

#[test]
fn the_chunk_size_is_4096() {
    assert_eq!(CHUNK_SIZE, 4096);
}

#[test]
fn a_fresh_direction_reads() {
    let d = Direction::new();
    assert_eq!(d.phase(), Phase::Reading);
    assert_eq!(d.wants(), IoAction::Read { limit: CHUNK_SIZE });
    assert_eq!(d.ending(), None);
    assert!(d.pending().is_empty());
}

#[test]
fn a_chunk_is_read_then_written_then_the_next_is_read() {
    let mut d = Direction::new();
    assert_eq!(d.step(IoEvent::Read(b"ping".to_vec())), IoAction::Write);
    assert_eq!(d.phase(), Phase::Writing);
    assert_eq!(d.pending().as_slice(), b"ping");
    assert_eq!(d.step(IoEvent::Written(4)), IoAction::Read { limit: 4096 });
    assert_eq!(d.phase(), Phase::Reading);
    assert!(d.pending().is_empty());
    assert_eq!(d.ending(), None);
}

#[test]
fn the_end_of_the_source_ends_the_direction_cleanly() {
    let mut d = Direction::new();
    assert_eq!(d.step(IoEvent::Read(Vec::new())), IoAction::Stop);
    assert_eq!(d.phase(), Phase::Finished(Ending::Eof));
    assert_eq!(d.ending(), Some(Ending::Eof));
    assert_eq!(d.wants(), IoAction::Stop);
}

#[test]
fn a_partial_write_leaves_the_rest_pending_in_order() {
    let mut d = Direction::new();
    d.step(IoEvent::Read(b"abcdefg".to_vec()));
    assert_eq!(d.step(IoEvent::Written(3)), IoAction::Write);
    assert_eq!(d.pending().as_slice(), b"defg");
    assert_eq!(d.step(IoEvent::Written(1)), IoAction::Write);
    assert_eq!(d.pending().as_slice(), b"efg");
    assert_eq!(d.step(IoEvent::Written(3)), IoAction::Read { limit: 4096 });
    assert!(d.pending().is_empty());
}

#[test]
fn a_write_count_beyond_the_pending_bytes_stands_for_all_of_them() {
    let mut d = Direction::new();
    d.step(IoEvent::Read(b"abc".to_vec()));
    assert_eq!(d.step(IoEvent::Written(usize::MAX)), IoAction::Read { limit: 4096 });
    assert!(d.pending().is_empty());
    assert_eq!(d.phase(), Phase::Reading);
}

#[test]
fn a_failed_read_ends_the_direction() {
    let mut d = Direction::new();
    assert_eq!(d.step(IoEvent::ReadFailed), IoAction::Stop);
    assert_eq!(d.ending(), Some(Ending::ReadFailed));
    let mut d = Direction::new();
    d.step(IoEvent::Read(b"x".to_vec()));
    d.step(IoEvent::Written(1));
    assert_eq!(d.step(IoEvent::ReadFailed), IoAction::Stop);
    assert_eq!(d.ending(), Some(Ending::ReadFailed));
}

#[test]
fn a_failed_write_ends_the_direction_and_keeps_what_was_not_delivered() {
    let mut d = Direction::new();
    d.step(IoEvent::Read(b"abcd".to_vec()));
    d.step(IoEvent::Written(1));
    assert_eq!(d.step(IoEvent::WriteFailed), IoAction::Stop);
    assert_eq!(d.ending(), Some(Ending::WriteFailed));
    assert_eq!(d.pending().as_slice(), b"bcd");
}

#[test]
fn a_sink_that_takes_nothing_ends_the_direction() {
    let mut d = Direction::new();
    d.step(IoEvent::Read(b"abcd".to_vec()));
    assert_eq!(d.step(IoEvent::Written(0)), IoAction::Stop);
    assert_eq!(d.ending(), Some(Ending::WriteZero));
    assert_eq!(d.pending().as_slice(), b"abcd");
}

#[test]
fn a_report_out_of_turn_changes_nothing() {
    let mut d = Direction::new();
    assert_eq!(d.step(IoEvent::Written(3)), IoAction::Read { limit: 4096 });
    assert_eq!(d.step(IoEvent::WriteFailed), IoAction::Read { limit: 4096 });
    assert_eq!(d.phase(), Phase::Reading);
    d.step(IoEvent::Read(b"abc".to_vec()));
    assert_eq!(d.step(IoEvent::Read(b"zzz".to_vec())), IoAction::Write);
    assert_eq!(d.step(IoEvent::Read(Vec::new())), IoAction::Write);
    assert_eq!(d.step(IoEvent::ReadFailed), IoAction::Write);
    assert_eq!(d.phase(), Phase::Writing);
    assert_eq!(d.pending().as_slice(), b"abc");
}

#[test]
fn an_interrupted_call_is_asked_for_again() {
    let mut d = Direction::new();
    assert_eq!(d.step(IoEvent::Interrupted), IoAction::Read { limit: 4096 });
    assert_eq!(d.phase(), Phase::Reading);
    d.step(IoEvent::Read(b"abc".to_vec()));
    d.step(IoEvent::Written(1));
    assert_eq!(d.step(IoEvent::Interrupted), IoAction::Write);
    assert_eq!(d.phase(), Phase::Writing);
    assert_eq!(d.pending().as_slice(), b"bc");
    assert_eq!(d.step(IoEvent::Written(2)), IoAction::Read { limit: 4096 });
    assert_eq!(d.step(IoEvent::Read(Vec::new())), IoAction::Stop);
    assert_eq!(d.step(IoEvent::Interrupted), IoAction::Stop);
    assert_eq!(d.ending(), Some(Ending::Eof));
}

#[test]
fn a_finished_direction_stays_finished() {
    for ending in [Ending::Eof, Ending::ReadFailed, Ending::WriteFailed, Ending::WriteZero] {
        let mut d = Direction::new();
        match ending {
            Ending::Eof => {
                d.step(IoEvent::Read(Vec::new()));
            }
            Ending::ReadFailed => {
                d.step(IoEvent::ReadFailed);
            }
            Ending::WriteFailed => {
                d.step(IoEvent::Read(b"q".to_vec()));
                d.step(IoEvent::WriteFailed);
            }
            Ending::WriteZero => {
                d.step(IoEvent::Read(b"q".to_vec()));
                d.step(IoEvent::Written(0));
            }
        }
        assert_eq!(d.ending(), Some(ending));
        let held = d.pending().clone();
        assert_eq!(d.step(IoEvent::Read(b"more".to_vec())), IoAction::Stop);
        assert_eq!(d.step(IoEvent::Read(Vec::new())), IoAction::Stop);
        assert_eq!(d.step(IoEvent::ReadFailed), IoAction::Stop);
        assert_eq!(d.step(IoEvent::Written(1)), IoAction::Stop);
        assert_eq!(d.step(IoEvent::WriteFailed), IoAction::Stop);
        assert_eq!(d.step(IoEvent::Interrupted), IoAction::Stop);
        assert_eq!(d.ending(), Some(ending));
        assert_eq!(d.pending(), &held);
    }
}

#[test]
fn only_the_end_of_the_source_is_clean() {
    assert!(Ending::Eof.is_clean());
    assert!(!Ending::ReadFailed.is_clean());
    assert!(!Ending::WriteFailed.is_clean());
    assert!(!Ending::WriteZero.is_clean());
}

#[test]
fn everything_read_is_delivered_in_order() {
    let chunks: [&[u8]; 4] = [b"The quick ", b"brown fox", b" ", b"jumps over the lazy dog"];
    for window in [1, 2, 3, 7, 4096] {
        let (sink, ending) = carry(&chunks, window);
        assert_eq!(sink.as_slice(), b"The quick brown fox jumps over the lazy dog");
        assert_eq!(ending, Some(Ending::Eof));
    }
}

#[test]
fn a_large_transfer_is_neither_truncated_nor_reordered() {
    let data: Vec<u8> = (0..50_000u32).map(|i| (i % 251) as u8).collect();
    let chunks: Vec<&[u8]> = data.chunks(CHUNK_SIZE).collect();
    let (sink, ending) = carry(&chunks, 1000);
    assert_eq!(sink.len(), 50_000);
    assert_eq!(sink, data);
    assert_eq!(ending, Some(Ending::Eof));
}

#[test]
fn an_empty_source_delivers_nothing() {
    let (sink, ending) = carry(&[], 16);
    assert!(sink.is_empty());
    assert_eq!(ending, Some(Ending::Eof));
}

#[test]
fn what_was_delivered_before_a_fault_is_the_front_of_what_was_read() {
    let mut d = Direction::new();
    let mut sink: Vec<u8> = Vec::new();
    d.step(IoEvent::Read(b"hello ".to_vec()));
    sink.extend_from_slice(&d.pending()[..6]);
    d.step(IoEvent::Written(6));
    d.step(IoEvent::Read(b"world".to_vec()));
    sink.extend_from_slice(&d.pending()[..2]);
    d.step(IoEvent::Written(2));
    d.step(IoEvent::WriteFailed);
    assert_eq!(sink.as_slice(), b"hello wo");
    assert_eq!(d.pending().as_slice(), b"rld");
    let mut all = sink.clone();
    all.extend_from_slice(d.pending());
    assert_eq!(all.as_slice(), b"hello world");
}
