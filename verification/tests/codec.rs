use rglgate::record::{append_frame, decode_recording, unix_duration};

#[test]
fn frame_bytes_exact() {
    let mut rec: Vec<u8> = Vec::new();
    append_frame(&mut rec, 1, 2, &[0xAB, 0xCD]);
    assert_eq!(
        rec,
        vec![1, 0, 0, 0, 2, 0, 0, 0, 2, 0, 0, 0, 0xAB, 0xCD]
    );
}

#[test]
fn frame_bytes_little_endian() {
    let mut rec: Vec<u8> = Vec::new();
    append_frame(&mut rec, 0x0102_0304, 0x000F_4240, &[]);
    assert_eq!(
        rec,
        vec![0x04, 0x03, 0x02, 0x01, 0x40, 0x42, 0x0F, 0x00, 0, 0, 0, 0]
    );
}

#[test]
fn empty_recording_decodes_to_no_frames() {
    let frames = decode_recording(&[]).expect("empty stream is a valid recording");
    assert_eq!(frames.len(), 0);
}

#[test]
fn round_trip_two_frames() {
    let chunks: [&[u8]; 2] = [b"hello", b"\x00\xFF\x10world"];
    let mut rec: Vec<u8> = Vec::new();
    append_frame(&mut rec, 10, 500_000, chunks[0]);
    append_frame(&mut rec, 11, 999_999, chunks[1]);

    let frames = decode_recording(&rec).expect("well-formed recording");
    assert_eq!(frames.len(), 2);
    assert_eq!(frames[0].seconds, 10);
    assert_eq!(frames[0].micros, 500_000);
    assert_eq!(frames[0].payload, chunks[0]);
    assert_eq!(frames[1].seconds, 11);
    assert_eq!(frames[1].micros, 999_999);
    assert_eq!(frames[1].payload, chunks[1]);

    let concat: Vec<u8> = frames
        .iter()
        .flat_map(|f| f.payload.iter().copied())
        .collect();
    let expected: Vec<u8> = chunks.iter().flat_map(|c| c.iter().copied()).collect();
    assert_eq!(concat, expected);
}

#[test]
fn round_trip_pseudo_random_chunks() {
    // A small linear congruential generator stands in for the child's
    // output: known, but irregular in length and content.
    let mut state: u64 = 0x1234_5678;
    let mut next = move || {
        state = state.wrapping_mul(6364136223846793005).wrapping_add(1442695040888963407);
        state
    };
    let mut chunks: Vec<Vec<u8>> = Vec::new();
    for _ in 0..17 {
        let len = (next() % 200) as usize;
        let mut chunk = Vec::with_capacity(len);
        for _ in 0..len {
            chunk.push((next() >> 32) as u8);
        }
        chunks.push(chunk);
    }

    let mut rec: Vec<u8> = Vec::new();
    for (i, chunk) in chunks.iter().enumerate() {
        append_frame(&mut rec, i as u32, (i * 1000) as u32, chunk);
    }

    let frames = decode_recording(&rec).expect("well-formed recording");
    assert_eq!(frames.len(), chunks.len());
    let concat: Vec<u8> = frames
        .iter()
        .flat_map(|f| f.payload.iter().copied())
        .collect();
    let expected: Vec<u8> = chunks.iter().flat_map(|c| c.iter().copied()).collect();
    assert_eq!(concat, expected);
}

#[test]
fn truncated_header_is_rejected() {
    assert!(decode_recording(&[1, 0, 0, 0, 2, 0]).is_none());
}

#[test]
fn truncated_payload_is_rejected() {
    // Header says 4 payload bytes, stream carries 2.
    let bytes = [0, 0, 0, 0, 0, 0, 0, 0, 4, 0, 0, 0, 0xAA, 0xBB];
    assert!(decode_recording(&bytes).is_none());
}

#[test]
fn trailing_garbage_is_rejected() {
    let mut rec: Vec<u8> = Vec::new();
    append_frame(&mut rec, 1, 1, b"x");
    rec.extend_from_slice(&[9, 9]);
    assert!(decode_recording(&rec).is_none());
}

#[test]
fn clock_reads_sane_microseconds() {
    let t = unix_duration().expect("clock after the epoch");
    assert!(t.micros < 1_000_000);
    assert!(t.secs > 0);
}
