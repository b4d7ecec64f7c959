use iot_bridge::handler::handle_read;
use iot_bridge::handler::process_connection;
use iot_bridge::handler::HandlerAction;

fn frame(value: f32) -> Vec<u8> {
    value.to_be_bytes().to_vec()
}

#[test]
fn test_handle_read_actions() {
    let buffer = frame(10.0);
    assert!(matches!(handle_read(&buffer, 0), HandlerAction::Close));
    assert!(matches!(handle_read(&buffer, 4), HandlerAction::Record(bits) if bits == 10.0f32.to_bits()));
    match handle_read(&buffer, 2) {
        HandlerAction::LogMalformed(raw, n) => {
            assert_eq!(n, 2);
            assert_eq!(raw, buffer[..2].to_vec());
        }
        _ => panic!("a two-byte read must be malformed"),
    }
}

#[test]
fn test_sequential_frames_recorded_in_order() {
    let reads = vec![frame(10.0), frame(11.0), frame(12.0)];
    let recorded = process_connection(&reads);
    assert_eq!(
        recorded,
        vec![10.0f32.to_bits(), 11.0f32.to_bits(), 12.0f32.to_bits()]
    );
}

#[test]
fn test_malformed_frame_keeps_connection_open() {
    // A two-byte frame is logged and skipped; the next well-formed
    // frame on the same connection is still processed.
    let reads = vec![vec![0xDEu8, 0xAD], frame(10.0)];
    let recorded = process_connection(&reads);
    assert_eq!(recorded, vec![10.0f32.to_bits()]);
}

#[test]
fn test_disconnect_after_one_frame() {
    // One well-formed frame, then an orderly close: exactly one
    // recording, and nothing that follows the close is seen.
    let reads = vec![frame(10.0), Vec::new(), frame(11.0), frame(12.0)];
    let recorded = process_connection(&reads);
    assert_eq!(recorded, vec![10.0f32.to_bits()]);
}

#[test]
fn test_concurrent_connections_each_recorded() {
    // Three connections of two frames each: six recordings in all,
    // none lost, none duplicated, each connection in its own order.
    let sessions = vec![
        vec![frame(1.0), frame(2.0)],
        vec![frame(3.0), frame(4.0)],
        vec![frame(5.0), frame(6.0)],
    ];
    let mut total = 0usize;
    let mut all: Vec<u32> = Vec::new();
    for session in &sessions {
        let recorded = process_connection(session);
        assert_eq!(recorded.len(), 2);
        total += recorded.len();
        all.extend(recorded);
    }
    assert_eq!(total, 6);
    let expected: Vec<u32> = [1.0f32, 2.0, 3.0, 4.0, 5.0, 6.0]
        .iter()
        .map(|v| v.to_bits())
        .collect();
    assert_eq!(all, expected);
}

#[test]
fn test_empty_connection_records_nothing() {
    let reads: Vec<Vec<u8>> = vec![Vec::new()];
    assert_eq!(process_connection(&reads), Vec::<u32>::new());
    let no_reads: Vec<Vec<u8>> = Vec::new();
    assert_eq!(process_connection(&no_reads), Vec::<u32>::new());
}
