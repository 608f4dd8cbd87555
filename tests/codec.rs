use canary::can::{Frame, FrameId};
use canary::sd::{decode_hex, frame_to_log, parse_id, parse_log_line, CanLogsIterator, LogStep, READ_CHUNK};

fn frame(id: FrameId, data: &[u8]) -> Frame {
    Frame::new(id, data.to_vec()).unwrap()
}

#[test]
fn decode_candump_line() {
    let f = parse_log_line(b"(0000000001.000000) can0 001#0102").unwrap();
    assert_eq!(f.id(), FrameId::Standard(1));
    assert_eq!(f.data(), &[0x01, 0x02]);
}

#[test]
fn encode_standard_frame() {
    let line = frame_to_log(&frame(FrameId::Standard(0x123), &[0xDE, 0xAD, 0x01]), 42);
    assert_eq!(line, b"(0000000042.000000) can0 123#DEAD01\n".to_vec());
}

#[test]
fn encode_extended_frame_and_empty_payload() {
    let line = frame_to_log(&frame(FrameId::Extended(0x1ABC_DEF0), &[]), 4_294_967_295);
    assert_eq!(line, b"(4294967295.000000) can0 1ABCDEF0#\n".to_vec());
}

#[test]
fn round_trip_examples() {
    let frames = vec![
        frame(FrameId::Standard(0), &[]),
        frame(FrameId::Standard(0x7FF), &[1, 2, 3, 4, 5, 6, 7, 8]),
        frame(FrameId::Extended(0), &[0xFF]),
        frame(FrameId::Extended(0x1FFF_FFFF), &[0x00, 0x10, 0xA5]),
    ];
    for f in frames {
        let line = frame_to_log(&f, 7);
        assert_eq!(*line.last().unwrap(), b'\n');
        let back = parse_log_line(&line[..line.len() - 1]).unwrap();
        assert_eq!(back, f);
    }
}

#[test]
fn frame_rejects_bad_ids_and_long_payloads() {
    assert!(Frame::new(FrameId::Standard(0x800), vec![]).is_none());
    assert!(Frame::new(FrameId::Extended(0x2000_0000), vec![]).is_none());
    assert!(Frame::new(FrameId::Standard(1), vec![0; 9]).is_none());
    assert!(Frame::new(FrameId::Standard(1), vec![0; 8]).is_some());
}

#[test]
fn decode_hex_values_and_errors() {
    assert_eq!(decode_hex(b"0aFf10"), Ok(vec![0x0A, 0xFF, 0x10]));
    assert_eq!(decode_hex(b""), Ok(vec![]));
    assert_eq!(decode_hex(b"abc"), Err(()));
    assert_eq!(decode_hex(b"0g"), Err(()));
    assert_eq!(decode_hex(b"+1"), Err(()));
    assert_eq!(decode_hex(b"000102030405060708"), Err(()));
}

#[test]
fn parse_id_widths() {
    assert_eq!(parse_id(b"7FF"), Some(FrameId::Standard(0x7FF)));
    assert_eq!(parse_id(b"1"), Some(FrameId::Standard(1)));
    assert_eq!(parse_id(b"800"), None);
    assert_eq!(parse_id(b"1FFFFFFF"), Some(FrameId::Extended(0x1FFF_FFFF)));
    assert_eq!(parse_id(b"20000000"), None);
    assert_eq!(parse_id(b"0001"), None);
    assert_eq!(parse_id(b""), None);
}

#[test]
fn malformed_lines_are_rejected() {
    assert!(parse_log_line(b"(0000000001.000000) can0 0010102").is_none());
    assert!(parse_log_line(b"(0000000001.000000) can0 001#010").is_none());
    assert!(parse_log_line(b"# Frames captured by CANary - Bitrate:  125 kbps, Silent: false").is_none());
    assert!(parse_log_line(b"").is_none());
}

#[test]
fn line_without_spaces_is_one_field() {
    let f = parse_log_line(b"0AB#01").unwrap();
    assert_eq!(f.id(), FrameId::Standard(0xAB));
    assert_eq!(f.data(), &[1]);
}

/// Feeds `text` through the decoder in chunks of the read size, as the reader task does.
fn decode_all(text: &[u8]) -> Vec<Frame> {
    let mut it = CanLogsIterator::new();
    let mut pos = 0;
    let mut out = Vec::new();
    loop {
        let at_eof = pos >= text.len();
        if !at_eof && it.wants_data() {
            let end = usize::min(pos + READ_CHUNK, text.len());
            it.push_chunk(&text[pos..end]);
            pos = end;
        }
        match it.next_frame(pos >= text.len()) {
            LogStep::Frame(f) => out.push(f),
            LogStep::NeedData => {}
            LogStep::End => break,
        }
    }
    out
}

#[test]
fn streaming_decoder_yields_every_line() {
    let mut text = Vec::new();
    for i in 0..5u16 {
        text.extend(frame_to_log(&frame(FrameId::Standard(i), &[i as u8, 0xAA]), i as u32));
    }
    let frames = decode_all(&text);
    assert_eq!(frames.len(), 5);
    for (i, f) in frames.iter().enumerate() {
        assert_eq!(f.id(), FrameId::Standard(i as u16));
        assert_eq!(f.data(), &[i as u8, 0xAA]);
    }
}

#[test]
fn streaming_decoder_stops_at_malformed_line() {
    let text = b"(0000000001.000000) can0 001#01\n(0000000002.000000) can0 XYZ#01\n(0000000003.000000) can0 003#03\n";
    let frames = decode_all(text);
    assert_eq!(frames.len(), 1);
    assert_eq!(frames[0].id(), FrameId::Standard(1));
}

#[test]
fn streaming_decoder_drops_unterminated_tail() {
    let text = b"(0000000001.000000) can0 001#01\n(0000000002.000000) can0 002#02";
    let frames = decode_all(text);
    assert_eq!(frames.len(), 1);
}

#[test]
fn streaming_decoder_on_empty_file() {
    assert!(decode_all(b"").is_empty());
}

#[test]
fn streaming_decoder_asks_for_data_then_ends_on_full_buffer() {
    let mut it = CanLogsIterator::new();
    assert!(it.wants_data());
    it.push_chunk(&[b'a'; 64]);
    assert!(matches!(it.next_frame(false), LogStep::NeedData));
    it.push_chunk(&[b'a'; 64]);
    assert!(!it.wants_data());
    assert!(matches!(it.next_frame(false), LogStep::End));
}
