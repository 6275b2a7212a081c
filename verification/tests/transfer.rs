use text_to_morse::channel::{Channel, BUFFER_SIZE};
use text_to_morse::error::Error;
use text_to_morse::morse::morse_code_from;
use text_to_morse::ringbuffer::Ringbuffer;
use text_to_morse::transfer::{read_step, write_step, ReadStep, Resume, WriteSession, WriteStep};
use text_to_morse::transport::{ByteSink, ByteSource};

fn session(bytes: &[u8]) -> WriteSession {
    WriteSession::new(ByteSource::new(bytes.to_vec()))
}

fn finished(step: WriteStep) -> (Result<usize, Error>, bool) {
    match step {
        WriteStep::Finished { result, notify_readers } => (result, notify_readers),
        WriteStep::Blocked(_) => panic!("the write step blocked"),
    }
}

fn blocked(step: WriteStep) -> WriteSession {
    match step {
        WriteStep::Blocked(session) => session,
        WriteStep::Finished { result, .. } => panic!("the write step finished with {:?}", result),
    }
}

fn drain<const N: usize>(queue: &mut Ringbuffer<u8, N>) -> Vec<u8> {
    let mut out = Vec::new();
    while let Ok(byte) = queue.try_pop() {
        out.push(byte);
    }
    out
}

fn morse(text: &str) -> Vec<u8> {
    text.chars().flat_map(|c| morse_code_from(c).bytes()).collect()
}

#[test]
fn hi_reads_back_as_the_two_symbols_without_separator() {
    let mut channel = Channel::new(1);
    let step = channel.write(session("Hi".as_bytes()), Resume::Ready);
    assert_eq!(finished(step), (Ok(2), true));
    assert_eq!(channel.len(), 6);

    let mut sink = ByteSink::new(64);
    let step = channel.read(&mut sink, Resume::Ready);
    assert_eq!(step, ReadStep::Finished { count: 6, notify_writers: true });
    assert_eq!(sink.into_bytes(), b"......".to_vec());
    assert_eq!(channel.len(), 0);
}

#[test]
fn separator_appears_only_if_it_is_written() {
    let mut channel = Channel::new(1);
    let step = channel.write(session("H i".as_bytes()), Resume::Ready);
    assert_eq!(finished(step), (Ok(3), true));
    let mut sink = ByteSink::new(64);
    channel.read(&mut sink, Resume::Ready);
    assert_eq!(sink.into_bytes(), b".... ..".to_vec());
}

#[test]
fn count_is_in_source_bytes_not_in_symbol_bytes() {
    let text = "\u{e4}\u{20ac}\u{1f600}a";
    let mut channel = Channel::new(1);
    let step = channel.write(session(text.as_bytes()), Resume::Ready);
    assert_eq!(finished(step), (Ok(10), true));
    let mut sink = ByteSink::new(64);
    let step = channel.read(&mut sink, Resume::Ready);
    assert_eq!(step, ReadStep::Finished { count: 22, notify_writers: true });
    assert_eq!(sink.into_bytes(), b".-.-.................-".to_vec());
}

#[test]
fn write_of_nothing_reports_the_exhausted_source() {
    let mut channel = Channel::new(1);
    let step = channel.write(session(&[]), Resume::Ready);
    assert_eq!(finished(step), (Err(Error::SourceExhausted), false));
    assert_eq!(channel.len(), 0);
}

#[test]
fn corrupt_input_at_the_start_is_an_error() {
    let mut channel = Channel::new(1);
    let step = channel.write(session(&[0xff, b'a']), Resume::Ready);
    assert_eq!(finished(step), (Err(Error::InvalidEncoding), false));
    assert_eq!(channel.len(), 0);
}

#[test]
fn split_sequence_at_the_start_is_an_exhausted_source() {
    let mut channel = Channel::new(1);
    let step = channel.write(session(&[0xe2, 0x82]), Resume::Ready);
    assert_eq!(finished(step), (Err(Error::SourceExhausted), false));
    assert_eq!(channel.len(), 0);
}

#[test]
fn corrupt_input_after_progress_ends_the_batch() {
    let mut channel = Channel::new(1);
    let step = channel.write(session(&[b'S', b'O', 0xff, b'S']), Resume::Ready);
    assert_eq!(finished(step), (Ok(2), true));
    let mut sink = ByteSink::new(64);
    channel.read(&mut sink, Resume::Ready);
    assert_eq!(sink.into_bytes(), b"...---".to_vec());
}

#[test]
fn sequence_split_across_calls_is_completed_by_the_second_call() {
    let text = "a\u{20ac}";
    let bytes = text.as_bytes();
    let mut channel = Channel::new(1);
    let step = channel.write(session(&bytes[..3]), Resume::Ready);
    assert_eq!(finished(step), (Ok(1), true));
    let step = channel.write(session(&bytes[1..]), Resume::Ready);
    assert_eq!(finished(step), (Ok(3), true));
    let mut sink = ByteSink::new(64);
    channel.read(&mut sink, Resume::Ready);
    assert_eq!(sink.into_bytes(), b".-........".to_vec());
}

#[test]
fn read_blocks_on_an_empty_buffer() {
    let mut channel = Channel::new(1);
    let mut sink = ByteSink::new(8);
    assert_eq!(channel.read(&mut sink, Resume::Ready), ReadStep::Blocked);
    assert_eq!(sink.len(), 0);
    assert_eq!(sink.room(), 8);
}

#[test]
fn interrupted_read_returns_nothing() {
    let mut channel = Channel::new(1);
    finished(channel.write(session(b"e"), Resume::Ready));
    let mut sink = ByteSink::new(8);
    let step = channel.read(&mut sink, Resume::Interrupted);
    assert_eq!(step, ReadStep::Finished { count: 0, notify_writers: false });
    assert_eq!(sink.len(), 0);
    assert_eq!(channel.len(), 1);
}

#[test]
fn read_stops_when_the_sink_is_full() {
    let mut channel = Channel::new(1);
    finished(channel.write(session(b"SOS"), Resume::Ready));
    let mut sink = ByteSink::new(4);
    let step = channel.read(&mut sink, Resume::Ready);
    assert_eq!(step, ReadStep::Finished { count: 4, notify_writers: true });
    assert!(sink.is_full());
    assert_eq!(sink.room(), 0);
    assert_eq!(sink.into_bytes(), b"...-".to_vec());
    assert_eq!(channel.len(), 5);

    let mut sink = ByteSink::new(100);
    let step = channel.read(&mut sink, Resume::Ready);
    assert_eq!(step, ReadStep::Finished { count: 5, notify_writers: true });
    assert_eq!(sink.room(), 95);
    assert_eq!(sink.into_bytes(), b"--...".to_vec());
}

#[test]
fn read_into_a_sink_without_room_transfers_nothing_and_still_wakes_writers() {
    let mut channel = Channel::new(1);
    finished(channel.write(session(b"e"), Resume::Ready));
    let mut sink = ByteSink::new(0);
    let step = channel.read(&mut sink, Resume::Ready);
    assert_eq!(step, ReadStep::Finished { count: 0, notify_writers: true });
    assert_eq!(channel.len(), 1);
}

#[test]
fn write_blocks_while_the_buffer_is_full_and_resumes_after_a_read() {
    let mut queue: Ringbuffer<u8, 4> = Ringbuffer::new();
    assert_eq!(finished(write_step(&mut queue, session(b"h"), Resume::Ready)), (Ok(1), true));
    assert!(queue.is_full());

    let waiting = blocked(write_step(&mut queue, session(b"ee"), Resume::Ready));
    assert_eq!(queue.len(), 4);
    let waiting = blocked(write_step(&mut queue, waiting, Resume::Ready));

    let mut sink = ByteSink::new(1);
    let step = read_step(&mut queue, &mut sink, Resume::Ready);
    assert_eq!(step, ReadStep::Finished { count: 1, notify_writers: true });

    let step = write_step(&mut queue, waiting, Resume::Ready);
    assert_eq!(finished(step), (Ok(1), true));
    assert_eq!(drain(&mut queue), b"....".to_vec());
}

#[test]
fn symbol_that_lacks_room_blocks_until_enough_is_drained() {
    let mut queue: Ringbuffer<u8, 13> = Ringbuffer::new();
    let waiting = blocked(write_step(&mut queue, session(b"0123"), Resume::Ready));
    assert_eq!(queue.len(), 10);
    assert_eq!(queue.free(), 3);

    let mut sink = ByteSink::new(1);
    read_step(&mut queue, &mut sink, Resume::Ready);
    assert_eq!(sink.into_bytes(), b"-".to_vec());
    let waiting = blocked(write_step(&mut queue, waiting, Resume::Ready));
    assert_eq!(queue.len(), 9);

    let mut sink = ByteSink::new(3);
    read_step(&mut queue, &mut sink, Resume::Ready);
    assert_eq!(sink.into_bytes(), b"---".to_vec());
    let waiting = blocked(write_step(&mut queue, waiting, Resume::Ready));
    assert_eq!(queue.len(), 11);
    assert_eq!(drain(&mut queue), b"-.----..---".to_vec());

    let step = write_step(&mut queue, waiting, Resume::Ready);
    assert_eq!(finished(step), (Ok(4), true));
    assert_eq!(drain(&mut queue), b"...--".to_vec());
}

#[test]
fn buffer_that_a_symbol_fills_ends_the_call() {
    let mut queue: Ringbuffer<u8, 10> = Ringbuffer::new();
    let step = write_step(&mut queue, session(b"0123"), Resume::Ready);
    assert_eq!(finished(step), (Ok(2), true));
    assert!(queue.is_full());
    assert_eq!(drain(&mut queue), b"-----.----".to_vec());
}

#[test]
fn blocked_symbol_leaves_the_buffer_untouched() {
    let mut queue: Ringbuffer<u8, 7> = Ringbuffer::new();
    let waiting = blocked(write_step(&mut queue, session(b"s5"), Resume::Ready));
    assert_eq!(queue.len(), 3);
    assert_eq!(queue.free(), 4);
    let _ = blocked(write_step(&mut queue, waiting, Resume::Ready));
    assert_eq!(drain(&mut queue), b"...".to_vec());
}

#[test]
fn symbol_that_fits_exactly_is_pushed() {
    let mut queue: Ringbuffer<u8, 5> = Ringbuffer::new();
    let step = write_step(&mut queue, session(b"5e"), Resume::Ready);
    assert_eq!(finished(step), (Ok(1), true));
    assert!(queue.is_full());
    assert_eq!(drain(&mut queue), b".....".to_vec());
}

#[test]
fn interrupted_wait_returns_the_count_so_far() {
    let mut queue: Ringbuffer<u8, 7> = Ringbuffer::new();
    let waiting = blocked(write_step(&mut queue, session(b"hi5"), Resume::Ready));
    let step = write_step(&mut queue, waiting, Resume::Interrupted);
    assert_eq!(finished(step), (Ok(2), true));
    assert_eq!(drain(&mut queue), b"......".to_vec());
}

#[test]
fn interrupted_wait_before_any_progress_returns_zero() {
    let mut queue: Ringbuffer<u8, 2> = Ringbuffer::new();
    finished(write_step(&mut queue, session(b"i"), Resume::Ready));
    let waiting = blocked(write_step(&mut queue, session(b"e"), Resume::Ready));
    let step = write_step(&mut queue, waiting, Resume::Interrupted);
    assert_eq!(finished(step), (Ok(0), false));
    assert_eq!(queue.len(), 2);
}

#[test]
fn interrupted_wait_gives_up_the_codepoint_that_waited() {
    let mut queue: Ringbuffer<u8, 4> = Ringbuffer::new();
    let waiting = blocked(write_step(&mut queue, session(b"5"), Resume::Ready));
    let step = write_step(&mut queue, waiting, Resume::Interrupted);
    assert_eq!(finished(step), (Ok(0), false));
    assert!(queue.is_empty());
}

#[test]
fn failure_after_a_blocked_symbol_went_through_is_a_short_count() {
    let mut queue: Ringbuffer<u8, 4> = Ringbuffer::new();
    finished(write_step(&mut queue, session(b"s"), Resume::Ready));
    let waiting = blocked(write_step(&mut queue, session(&[b'5', 0xff]), Resume::Ready));
    assert_eq!(drain(&mut queue), b"...".to_vec());
    let waiting = blocked(write_step(&mut queue, waiting, Resume::Ready));
    let _ = waiting;

    let mut queue: Ringbuffer<u8, 6> = Ringbuffer::new();
    finished(write_step(&mut queue, session(b"s"), Resume::Ready));
    let waiting = blocked(write_step(&mut queue, session(&[b'5', 0xff]), Resume::Ready));
    assert_eq!(drain(&mut queue), b"...".to_vec());
    let step = write_step(&mut queue, waiting, Resume::Ready);
    assert_eq!(finished(step), (Ok(1), true));
    assert_eq!(drain(&mut queue), b".....".to_vec());
}

#[test]
fn full_channel_takes_text_in_pieces() {
    let text: String = "paris ".repeat(40);
    let expected = morse(&text);
    let mut channel = Channel::new(3);
    let mut received = Vec::new();
    let mut offset = 0;
    let mut calls = 0;
    while offset < text.len() {
        let mut step = channel.write(session(&text.as_bytes()[offset..]), Resume::Ready);
        loop {
            match step {
                WriteStep::Finished { result, notify_readers } => {
                    let count = result.unwrap();
                    assert_eq!(notify_readers, count > 0);
                    offset += count;
                    break;
                }
                WriteStep::Blocked(waiting) => {
                    assert!(channel.len() > BUFFER_SIZE - 8);
                    let mut sink = ByteSink::new(100);
                    match channel.read(&mut sink, Resume::Ready) {
                        ReadStep::Finished { count, notify_writers } => {
                            assert_eq!(count, 100);
                            assert!(notify_writers);
                        }
                        ReadStep::Blocked => panic!("nothing to read"),
                    }
                    received.extend(sink.into_bytes());
                    step = channel.write(waiting, Resume::Ready);
                }
            }
        }
        assert!(channel.len() <= BUFFER_SIZE);
        calls += 1;
        assert!(calls < 100);
    }
    let mut sink = ByteSink::new(BUFFER_SIZE);
    channel.read(&mut sink, Resume::Ready);
    received.extend(sink.into_bytes());
    assert_eq!(received, expected);
}

#[test]
fn sink_takes_bytes_until_its_room_is_used_up() {
    let mut sink = ByteSink::new(2);
    assert_eq!(sink.room(), 2);
    assert!(!sink.is_full());
    assert_eq!(sink.write_one_byte(b'.'), Ok(()));
    assert_eq!(sink.write_one_byte(b'-'), Ok(()));
    assert!(sink.is_full());
    assert_eq!(sink.len(), 2);
    assert_eq!(sink.write_one_byte(b'.'), Err(Error::Full));
    assert_eq!(sink.len(), 2);
    assert_eq!(sink.into_bytes(), b".-".to_vec());
}
