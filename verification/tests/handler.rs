use echo_pool::handler::CHUNK_SIZE;
use echo_pool::handler::HandlerAction;
use echo_pool::handler::ReadOutcome;
use echo_pool::handler::chunk_message;
use echo_pool::handler::echo_session;
use echo_pool::handler::echo_step;

#[test]
fn small_message_is_echoed_unchanged() {
    let action = echo_step(ReadOutcome::Data(b"hello".to_vec()));
    match action {
        HandlerAction::Reply(reply) => assert_eq!(reply, b"hello".to_vec()),
        _ => panic!("expected a reply"),
    }
}

#[test]
fn single_byte_is_echoed() {
    let action = echo_step(ReadOutcome::Data(vec![0x2a]));
    match action {
        HandlerAction::Reply(reply) => assert_eq!(reply, vec![0x2a]),
        _ => panic!("expected a reply"),
    }
}

#[test]
fn full_chunk_is_echoed_unchanged() {
    let data: Vec<u8> = (0..CHUNK_SIZE).map(|i| (i % 251) as u8).collect();
    let action = echo_step(ReadOutcome::Data(data.clone()));
    match action {
        HandlerAction::Reply(reply) => assert_eq!(reply, data),
        _ => panic!("expected a reply"),
    }
}

#[test]
fn zero_length_read_closes_the_connection() {
    let action = echo_step(ReadOutcome::Data(Vec::new()));
    assert!(matches!(action, HandlerAction::Shutdown));
}

#[test]
fn failed_read_aborts_the_connection() {
    let action = echo_step(ReadOutcome::Failed);
    assert!(matches!(action, HandlerAction::Abort));
}

#[test]
fn session_echoes_message_then_stops_at_close() {
    let reads = vec![b"ping".to_vec(), Vec::new(), b"late".to_vec()];
    let out = echo_session(&reads);
    assert_eq!(out, b"ping".to_vec());
}

#[test]
fn session_of_empty_first_read_returns_nothing() {
    let reads = vec![Vec::new()];
    let out = echo_session(&reads);
    assert_eq!(out, Vec::<u8>::new());
}

#[test]
fn session_concatenates_all_reads_in_order() {
    let reads = vec![b"ab".to_vec(), b"cd".to_vec(), b"ef".to_vec()];
    let out = echo_session(&reads);
    assert_eq!(out, b"abcdef".to_vec());
}

#[test]
fn long_message_is_returned_whole_and_in_order() {
    let data: Vec<u8> = (0..2500u32).map(|i| (i % 256) as u8).collect();
    let chunks = chunk_message(&data);
    assert_eq!(chunks.len(), 3);
    assert_eq!(chunks[0].len(), CHUNK_SIZE);
    assert_eq!(chunks[1].len(), CHUNK_SIZE);
    assert_eq!(chunks[2].len(), 2500 - 2 * CHUNK_SIZE);
    let out = echo_session(&chunks);
    assert_eq!(out, data);
}

#[test]
fn chunking_splits_at_the_chunk_size() {
    let exact: Vec<u8> = vec![7; CHUNK_SIZE];
    let chunks = chunk_message(&exact);
    assert_eq!(chunks.len(), 1);
    assert_eq!(chunks[0], exact);

    let over: Vec<u8> = vec![9; CHUNK_SIZE + 1];
    let chunks = chunk_message(&over);
    assert_eq!(chunks.len(), 2);
    assert_eq!(chunks[0].len(), CHUNK_SIZE);
    assert_eq!(chunks[1].len(), 1);
}

#[test]
fn whole_message_round_trips_byte_for_byte() {
    let data: Vec<u8> = (0..5000u32).map(|i| (i % 253) as u8).collect();
    assert_eq!(echo_pool::handler::echo_whole_message(&data), data);
    let empty: Vec<u8> = Vec::new();
    assert_eq!(echo_pool::handler::echo_whole_message(&empty), empty);
}

#[test]
fn chunking_an_empty_message_yields_no_reads() {
    let chunks = chunk_message(&Vec::new());
    assert!(chunks.is_empty());
}
