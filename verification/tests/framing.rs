use seeky::framing::{DecodeOutcome, decode_frame, encode_frame};

#[test]
fn encode_then_decode_gives_the_payload_back() {
    let payload: Vec<u8> = vec![10, 20, 30, 40, 50];
    let mut stream: Vec<u8> = Vec::new();
    encode_frame(&payload, &mut stream);
    assert_eq!(stream.len(), 4 + payload.len());
    match decode_frame(&stream, 0) {
        DecodeOutcome::Frame { payload: out, consumed } => {
            assert_eq!(out, payload);
            assert_eq!(consumed, 9);
        }
        DecodeOutcome::NeedMore => panic!("expected a whole record"),
    }
}

#[test]
fn header_is_little_endian() {
    let payload: Vec<u8> = vec![0; 258];
    let mut stream: Vec<u8> = Vec::new();
    encode_frame(&payload, &mut stream);
    assert_eq!(&stream[0..4], &[2, 1, 0, 0]);
}

#[test]
fn records_decode_in_send_order() {
    let mut stream: Vec<u8> = Vec::new();
    encode_frame(&vec![1, 2], &mut stream);
    encode_frame(&vec![3], &mut stream);
    let first = decode_frame(&stream, 0);
    let (p1, c1) = match first {
        DecodeOutcome::Frame { payload, consumed } => (payload, consumed),
        DecodeOutcome::NeedMore => panic!("expected the first record"),
    };
    assert_eq!(p1, vec![1, 2]);
    match decode_frame(&stream, c1) {
        DecodeOutcome::Frame { payload, consumed } => {
            assert_eq!(payload, vec![3]);
            assert_eq!(c1 + consumed, stream.len());
        }
        DecodeOutcome::NeedMore => panic!("expected the second record"),
    }
}

#[test]
fn truncated_records_ask_for_more_input() {
    let mut stream: Vec<u8> = Vec::new();
    encode_frame(&vec![7, 8, 9], &mut stream);
    assert_eq!(decode_frame(&vec![], 0), DecodeOutcome::NeedMore);
    for cut in 0..stream.len() {
        let partial: Vec<u8> = stream[0..cut].to_vec();
        assert_eq!(decode_frame(&partial, 0), DecodeOutcome::NeedMore);
    }
}

#[test]
fn empty_payload_frames_as_a_bare_header() {
    let mut stream: Vec<u8> = Vec::new();
    encode_frame(&vec![], &mut stream);
    assert_eq!(stream, vec![0, 0, 0, 0]);
    match decode_frame(&stream, 0) {
        DecodeOutcome::Frame { payload, consumed } => {
            assert!(payload.is_empty());
            assert_eq!(consumed, 4);
        }
        DecodeOutcome::NeedMore => panic!("expected an empty record"),
    }
}
