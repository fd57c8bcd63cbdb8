use direct_connectivity::alts::cipher::TAG_SIZE;
use direct_connectivity::alts::frame::{encrypt_frame, FrameError, MAX_FRAME_SIZE};
use direct_connectivity::alts::stream::{AltsStream, ReadOutcome};

const CLIENT_KEY: [u8; 16] = [1; 16];
const SERVER_KEY: [u8; 16] = [2; 16];

fn client() -> AltsStream<u8> {
    AltsStream::new(0, CLIENT_KEY.to_vec(), SERVER_KEY.to_vec())
}

fn server() -> AltsStream<u8> {
    AltsStream::new(0, SERVER_KEY.to_vec(), CLIENT_KEY.to_vec())
}

fn write(stream: &mut AltsStream<u8>, data: &[u8]) -> Vec<u8> {
    let frame = stream.start_write(data).unwrap();
    assert_eq!(frame.plaintext_len, data.len());
    let written = frame.bytes.len();
    assert_eq!(stream.finish_write(&frame, written).unwrap(), data.len());
    frame.bytes
}

/// Reads with the given room, from a connection that gives chunks of the given
/// size, until the stream reports its end.
fn read_all(stream: &mut AltsStream<u8>, bytes: &[u8], chunk: usize, room: usize) -> Vec<u8> {
    let mut data = Vec::new();
    let mut rest = bytes;
    loop {
        if let Some(more) = stream.read_ready(room).unwrap() {
            assert!(more.len() <= room);
            data.extend(more);
            continue;
        }
        let n = chunk.min(rest.len());
        let (head, tail) = rest.split_at(n);
        rest = tail;
        match stream.read_received(head, room).unwrap() {
            ReadOutcome::Data(more) => {
                assert!(more.len() <= room);
                data.extend(more);
            }
            ReadOutcome::Incomplete => {}
            ReadOutcome::EndOfStream => {
                assert!(n == 0);
                return data;
            }
        }
    }
}

#[test]
fn a_reader_gets_back_what_its_peer_wrote() {
    for chunk in 1..=100 {
        for room in [1, 4, 100] {
            let mut writer = client();
            let mut reader = server();
            let mut bytes = Vec::new();
            bytes.extend(write(&mut writer, b"first frame"));
            bytes.extend(write(&mut writer, b"second frame!!!!"));
            bytes.extend(write(&mut writer, b"third"));
            let data = read_all(&mut reader, &bytes, chunk, room);
            assert_eq!(data, b"first framesecond frame!!!!third");
            assert_eq!(writer.write_counter(), 3);
            assert_eq!(reader.read_counter(), 3);
        }
    }
}

#[test]
fn both_directions_are_independent() {
    let mut a = client();
    let mut b = server();
    let there = write(&mut a, b"ping");
    assert_eq!(read_all(&mut b, &there, 8192, 8192), b"ping");
    let back = write(&mut b, b"pong");
    assert_eq!(read_all(&mut a, &back, 8192, 8192), b"pong");
    assert_eq!((a.write_counter(), a.read_counter()), (1, 1));
    assert_eq!((b.write_counter(), b.read_counter()), (1, 1));
}

#[test]
fn a_frame_is_its_length_and_its_payload() {
    let stream = client();
    let frame = stream.start_write(b"abc").unwrap();
    let sealed = encrypt_frame(&CLIENT_KEY, 0, b"abc").unwrap();
    assert_eq!(frame.bytes[..4], [19, 0, 0, 0]);
    assert_eq!(frame.bytes[4..], sealed[..]);
}

#[test]
fn an_empty_frame_carries_nothing() {
    let mut writer = client();
    let mut reader = server();
    let bytes = write(&mut writer, b"");
    assert_eq!(bytes.len(), 4 + TAG_SIZE);
    match reader.read_received(&bytes, 10).unwrap() {
        ReadOutcome::Data(data) => assert!(data.is_empty()),
        other => panic!("unexpected {other:?}"),
    }
    assert_eq!(reader.read_counter(), 1);
}

#[test]
fn a_write_takes_as_much_as_a_frame_can_carry() {
    let stream = client();
    let limit = MAX_FRAME_SIZE - TAG_SIZE;
    let frame = stream.start_write(&vec![5u8; limit + 1]).unwrap();
    assert_eq!(frame.plaintext_len, limit);
    assert_eq!(frame.bytes.len(), 4 + MAX_FRAME_SIZE);
    assert_eq!(frame.bytes[..4], [0, 0, 16, 0]);
    let frame = stream.start_write(&vec![5u8; limit]).unwrap();
    assert_eq!(frame.plaintext_len, limit);
    let mut reader = server();
    let data = read_all(&mut reader, &frame.bytes, 8192, 100_000);
    assert_eq!(data, vec![5u8; limit]);
}

#[test]
fn a_partial_write_fails_and_keeps_the_counter() {
    let mut stream = client();
    let frame = stream.start_write(b"abc").unwrap();
    let error = stream.finish_write(&frame, frame.bytes.len() - 1).unwrap_err();
    assert!(matches!(error, FrameError::PartialWrite));
    assert_eq!(stream.write_counter(), 0);
}

#[test]
fn a_write_under_a_bad_key_fails() {
    let stream = AltsStream::new(0u8, vec![1; 5], vec![2; 16]);
    let error = stream.start_write(b"abc").unwrap_err();
    assert_eq!(error.message(), "bad key: Unspecified");
}

#[test]
fn the_end_of_the_connection_is_passed_on() {
    let mut stream = client();
    assert!(matches!(
        stream.read_received(b"", 10),
        Ok(ReadOutcome::EndOfStream)
    ));
    assert!(stream.read_buffered(10).is_none());
}

#[test]
fn a_frame_that_is_too_large_is_refused() {
    let mut stream = client();
    let error = stream.read_received(&[1, 0, 16, 0], 10).unwrap_err();
    assert!(matches!(error, FrameError::FrameTooLarge(1048577)));
    let mut stream = client();
    assert!(matches!(
        stream.read_received(&[0, 0, 16, 0], 10),
        Ok(ReadOutcome::Incomplete)
    ));
}

#[test]
fn a_frame_out_of_order_is_refused() {
    let mut writer = client();
    let first = write(&mut writer, b"first");
    let second = write(&mut writer, b"second");
    let mut reader = server();
    let error = reader.read_received(&second, 10).unwrap_err();
    assert!(matches!(error, FrameError::DecryptionFailed));
    assert_eq!(reader.read_counter(), 0);
    let mut reader = server();
    assert!(reader.read_received(&first, 10).is_ok());
    let error = reader.read_received(&first, 10).unwrap_err();
    assert!(matches!(error, FrameError::DecryptionFailed));
    let mut reader = AltsStream::new(0u8, vec![], vec![]);
    let error = reader.read_received(&first, 10).unwrap_err();
    assert_eq!(error.message(), "bad key: Unspecified");
}

fn data(outcome: ReadOutcome) -> Vec<u8> {
    match outcome {
        ReadOutcome::Data(data) => data,
        other => panic!("unexpected {other:?}"),
    }
}

#[test]
fn the_second_frame_of_a_chunk_needs_no_further_bytes() {
    let mut writer = client();
    let mut bytes = write(&mut writer, b"one");
    bytes.extend(write(&mut writer, b"two"));
    let third = write(&mut writer, b"three");
    bytes.extend(&third[..1]);
    let mut reader = server();
    assert_eq!(data(reader.read_received(&bytes, 100).unwrap()), b"one");
    assert!(reader.read_buffered(100).is_none());
    assert_eq!(reader.read_held(1).unwrap().unwrap(), b"t");
    assert_eq!(reader.read_buffered(100).unwrap(), b"wo");
    assert!(reader.read_buffered(100).is_none());
    assert!(reader.read_held(100).unwrap().is_none());
    assert_eq!(reader.read_counter(), 2);
    assert_eq!(data(reader.read_received(&third[1..], 100).unwrap()), b"three");
}

#[test]
fn whole_frames_come_before_the_end_of_the_stream() {
    let key = [0x42u8; 16];
    let mut bytes = vec![18, 0, 0, 0];
    bytes.extend(encrypt_frame(&key, 0, b"ab").unwrap());
    bytes.extend([18, 0, 0, 0]);
    bytes.extend(encrypt_frame(&key, 1, b"cd").unwrap());
    let start = || AltsStream::new(0u8, key.to_vec(), key.to_vec());

    let mut stream = start();
    assert_eq!(data(stream.read_received(&bytes, 16).unwrap()), b"ab");
    assert_eq!(data(stream.read_received(&[], 16).unwrap()), b"cd");
    assert!(matches!(stream.read_received(&[], 16), Ok(ReadOutcome::EndOfStream)));

    let mut stream = start();
    assert_eq!(data(stream.read_received(&bytes, 16).unwrap()), b"ab");
    assert!(stream.read_buffered(16).is_none());
    assert_eq!(stream.read_held(16).unwrap().unwrap(), b"cd");
    assert!(stream.read_buffered(16).is_none());
    assert!(stream.read_held(16).unwrap().is_none());
    assert!(matches!(stream.read_received(&[], 16), Ok(ReadOutcome::EndOfStream)));
}

#[test]
fn a_part_of_a_frame_is_not_delivered_at_the_end() {
    let mut writer = client();
    let bytes = write(&mut writer, b"one");
    let mut reader = server();
    assert!(matches!(
        reader.read_received(&bytes[..10], 16),
        Ok(ReadOutcome::Incomplete)
    ));
    assert!(reader.read_held(16).unwrap().is_none());
    assert!(matches!(reader.read_received(&[], 16), Ok(ReadOutcome::EndOfStream)));
}

#[test]
fn a_held_frame_may_be_refused() {
    let mut writer = client();
    let mut bytes = write(&mut writer, b"one");
    bytes.extend([1, 0, 16, 0]);
    let mut reader = server();
    assert_eq!(data(reader.read_received(&bytes, 16).unwrap()), b"one");
    let error = reader.read_held(16).unwrap_err();
    assert!(matches!(error, FrameError::FrameTooLarge(1048577)));
    assert!(reader.read_held(16).unwrap().is_none());

    let mut writer = client();
    let first = write(&mut writer, b"one");
    let mut bytes = first.clone();
    bytes.extend(&first);
    let mut reader = server();
    assert_eq!(data(reader.read_received(&bytes, 16).unwrap()), b"one");
    let error = reader.read_held(16).unwrap_err();
    assert!(matches!(error, FrameError::DecryptionFailed));
}

#[test]
fn bytes_that_came_in_already_are_read_first() {
    let mut writer = client();
    let mut bytes = write(&mut writer, b"one");
    bytes.extend(write(&mut writer, b"two"));
    for held in 0..=bytes.len() {
        let mut reader = AltsStream::with_received(
            0u8,
            SERVER_KEY.to_vec(),
            CLIENT_KEY.to_vec(),
            bytes[..held].to_vec(),
        );
        assert_eq!(read_all(&mut reader, &bytes[held..], 7, 2), b"onetwo");
    }
}

#[test]
fn the_connection_stays_reachable() {
    let mut stream = AltsStream::new(vec![1u8], CLIENT_KEY.to_vec(), SERVER_KEY.to_vec());
    stream.inner_mut().push(2);
    assert_eq!(*stream.inner_mut(), vec![1, 2]);
}

#[test]
fn what_is_ready_comes_in_order() {
    let mut writer = client();
    let mut bytes = write(&mut writer, b"one");
    bytes.extend(write(&mut writer, b""));
    bytes.extend(write(&mut writer, b"two"));
    let mut reader = server();
    assert!(reader.read_ready(2).unwrap().is_none());
    assert_eq!(data(reader.read_received(&bytes, 2).unwrap()), b"on");
    assert_eq!(reader.read_ready(2).unwrap().unwrap(), b"e");
    assert_eq!(reader.read_ready(2).unwrap().unwrap(), b"");
    assert_eq!(reader.read_ready(2).unwrap().unwrap(), b"tw");
    assert_eq!(reader.read_ready(2).unwrap().unwrap(), b"o");
    assert!(reader.read_ready(2).unwrap().is_none());
    assert_eq!(reader.read_counter(), 3);
}

#[test]
fn a_refused_frame_is_refused_with_every_chunk_and_not_at_the_end() {
    let mut writer = client();
    write(&mut writer, b"first");
    let second = write(&mut writer, b"second");
    for bad in [second, vec![1, 0, 16, 0]] {
        let mut reader = server();
        let first = reader.read_received(&bad, 16).unwrap_err().message();
        assert!(reader.read_ready(16).unwrap().is_none());
        let again = reader.read_received(&[7], 16).unwrap_err().message();
        assert_eq!(again, first);
        assert!(reader.read_ready(16).unwrap().is_none());
        assert!(matches!(reader.read_received(&[], 16), Ok(ReadOutcome::EndOfStream)));
        assert!(matches!(reader.read_received(&[], 16), Ok(ReadOutcome::EndOfStream)));
        assert_eq!(reader.read_counter(), 0);
    }
}

#[test]
fn frames_are_dealt_with_alike_in_one_chunk_or_in_many() {
    let mut writer = client();
    let first = write(&mut writer, b"one");
    let mut together = first.clone();
    together.extend(&first);

    let mut reader = server();
    assert_eq!(data(reader.read_received(&together, 16).unwrap()), b"one");
    assert!(reader.read_ready(16).is_err());
    assert!(reader.read_ready(16).unwrap().is_none());
    assert!(matches!(reader.read_received(&[], 16), Ok(ReadOutcome::EndOfStream)));

    let mut reader = server();
    assert_eq!(data(reader.read_received(&first, 16).unwrap()), b"one");
    assert!(reader.read_ready(16).unwrap().is_none());
    assert!(reader.read_received(&first, 16).is_err());
    assert!(reader.read_ready(16).unwrap().is_none());
    assert!(matches!(reader.read_received(&[], 16), Ok(ReadOutcome::EndOfStream)));
}

#[test]
fn frames_around_a_partial_write_keep_their_numbers() {
    let mut writer = client();
    let mut bytes = write(&mut writer, b"one");
    let lost = writer.start_write(b"lost").unwrap();
    assert!(writer.finish_write(&lost, 3).is_err());
    bytes.extend(write(&mut writer, b"two"));
    assert_eq!(writer.write_counter(), 2);
    assert_eq!(read_all(&mut server(), &bytes, 9, 9), b"onetwo");
}
