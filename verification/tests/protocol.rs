use pipekeep::protocol::{
    checked_end, exit_json, offset_payload, only_offset, read_exit, read_frame, read_header,
    read_line, split_offset, validate_header, write_frame, written_exit, Direction, ExitResult,
    Frame, JsonPayload, LineReader, LineStep, ProtocolError, RawFrame, MAX_FRAME, MAX_JSON_LINE,
};

#[test]
fn header_limits_and_checked_ranges() {
    for kind in [1, 3, 4] {
        let direction = if kind == 1 {
            Direction::Input
        } else {
            Direction::Output
        };
        assert!(validate_header(kind, 8, direction).is_ok());
        assert!(validate_header(kind, MAX_FRAME, direction).is_ok());
        assert!(validate_header(kind, MAX_FRAME + 1, direction).is_err());
        assert!(validate_header(kind, 7, direction).is_err());
    }
    assert!(validate_header(2, 9, Direction::Input).is_err());
    assert!(validate_header(5, 9, Direction::Output).is_err());
    assert!(validate_header(6, 257, Direction::Output).is_err());
    assert!(validate_header(3, MAX_FRAME, Direction::Input).is_err());
    assert_eq!(checked_end(u64::MAX - 4, 4).unwrap(), u64::MAX);
    assert!(checked_end(u64::MAX - 4, 5).is_err());
    assert!(offset_payload(u64::MAX, b"x").is_err());
    for (code, signal) in [
        (None, None),
        (Some(0), Some(15)),
        (Some(-1), None),
        (None, Some(0)),
        (None, Some(i32::MAX)),
    ] {
        assert!(ExitResult { code, signal }.validate().is_err());
    }
}

#[test]
fn rejects_bad_headers_without_reading_or_allocating_payload() {
    for (kind, length) in [(1_u8, u32::MAX), (3, 16 * 1024 * 1024), (2, 9), (99, 1)] {
        let mut bytes = vec![kind];
        bytes.extend_from_slice(&length.to_be_bytes());
        // Nothing follows the header: it alone is refused.
        assert!(read_header(&bytes, Direction::Input).is_err());
        assert!(read_frame(&bytes, Direction::Input, JsonPayload::Unusable).is_err());
    }
    for bytes in [vec![1], vec![1, 0, 0, 0, 9, 0, 0], vec![2, 0, 0, 0, 8, 0]] {
        assert!(read_frame(&bytes, Direction::Input, JsonPayload::Unusable).is_err());
    }
    let mut bytes = vec![1, 0, 0, 0, 9];
    bytes.extend_from_slice(&u64::MAX.to_be_bytes());
    bytes.push(1);
    assert!(read_frame(&bytes, Direction::Input, JsonPayload::Unusable).is_err());
}

#[test]
fn frames_round_trip() {
    let bytes = write_frame(
        &Frame::StdoutData {
            offset: 42,
            data: b"hello".to_vec(),
        },
        b"",
    )
    .unwrap();
    let (frame, count) = read_frame(&bytes, Direction::Output, JsonPayload::Unusable)
        .unwrap()
        .unwrap();
    assert_eq!(count, bytes.len());
    match frame {
        Frame::StdoutData { offset, data } => {
            assert_eq!(offset, 42);
            assert_eq!(data, b"hello");
        }
        _ => panic!("wrong frame"),
    }
}

#[test]
fn frames_are_a_kind_a_length_and_a_payload() {
    let bytes = write_frame(&Frame::StdinData { offset: 258, data: b"ab".to_vec() }, b"").unwrap();
    assert_eq!(bytes, [1, 0, 0, 0, 10, 0, 0, 0, 0, 0, 0, 1, 2, b'a', b'b']);
    let bytes = write_frame(&Frame::StdinEof { offset: 7 }, b"").unwrap();
    assert_eq!(bytes, [2, 0, 0, 0, 8, 0, 0, 0, 0, 0, 0, 0, 7]);
}

#[test]
fn exits_are_read_as_they_were_written() {
    for code in 0..=255 {
        let exit = ExitResult { code: Some(code), signal: None };
        assert_eq!(exit_json(&exit), format!("{{\"code\":{code}}}").into_bytes());
        let mut bytes = write_frame(&Frame::Exit(exit), b"").unwrap();
        let whole = bytes.len();
        bytes.extend_from_slice(b"more");
        match read_frame(&bytes, Direction::Output, JsonPayload::Unusable).unwrap().unwrap() {
            (Frame::Exit(found), count) => {
                assert_eq!(found, exit);
                assert_eq!(count, whole);
            }
            _ => panic!("wrong frame"),
        }
    }
    for signal in 1..=127 {
        let exit = ExitResult { code: None, signal: Some(signal) };
        assert_eq!(exit_json(&exit), format!("{{\"signal\":{signal}}}").into_bytes());
        assert_eq!(written_exit(&exit_json(&exit)), Some(exit));
    }
    let both = ExitResult { code: Some(-1), signal: Some(9) };
    assert_eq!(exit_json(&both), b"{\"code\":-1,\"signal\":9}");
    assert_eq!(written_exit(&exit_json(&both)), None);
    let neither = ExitResult { code: None, signal: None };
    assert_eq!(exit_json(&neither), b"{}");
    assert_eq!(written_exit(b"{}"), None);
}

#[test]
fn exits_in_other_forms_are_left_to_a_reader_of_json() {
    let three = ExitResult { code: Some(3), signal: None };
    for other in [
        &b"{\"code\":3,\"signal\":null}"[..],
        b"{\"code\": 3}",
        b"{\"code\":03}",
        b"{\"code\":256}",
        b"{\"signal\":0}",
        b"{\"signal\":128}",
        b"{\"code\":}",
        b"{\"code\":3]",
        b"{\"coda\":3}",
        b"[3,null]",
        b"}",
        b"",
    ] {
        assert_eq!(written_exit(other), None);
        assert_eq!(read_exit(other, JsonPayload::Unusable), None);
        assert_eq!(read_exit(other, JsonPayload::Exit(three)), Some(three));
    }
    let four = ExitResult { code: Some(4), signal: None };
    assert_eq!(read_exit(b"{\"code\":4}", JsonPayload::Exit(three)), Some(four));
}

#[test]
fn frames_with_unusable_payloads_are_refused() {
    let raw = |payload: &[u8]| RawFrame { kind: 6, payload: payload.to_vec() };
    let neither = JsonPayload::Exit(ExitResult { code: None, signal: None });
    let beyond = JsonPayload::Exit(ExitResult { code: Some(256), signal: None });
    assert_eq!(raw(b"{}").decode(neither).unwrap_err(), ProtocolError::ExitShape);
    assert_eq!(raw(b"{\"code\":256}").decode(beyond).unwrap_err(), ProtocolError::ExitShape);
    assert_eq!(raw(b"x").decode(JsonPayload::Unusable).unwrap_err(), ProtocolError::ExitPayload);
    let fact = RawFrame { kind: 7, payload: b"{}".to_vec() };
    assert_eq!(fact.decode(JsonPayload::Unusable).unwrap_err(), ProtocolError::FactPayload);
}

#[test]
fn cut_frames_are_refused() {
    let exit = ExitResult { code: Some(3), signal: None };
    let bytes = write_frame(&Frame::Exit(exit), b"").unwrap();
    for kept in 1..bytes.len() {
        assert_eq!(
            read_frame(&bytes[..kept], Direction::Output, JsonPayload::Unusable).unwrap_err(),
            ProtocolError::Truncated
        );
    }
}

#[test]
fn an_empty_stream_has_no_frame() {
    assert!(read_frame(b"", Direction::Input, JsonPayload::Unusable).unwrap().is_none());
}

#[test]
fn payload_offsets_split_and_join() {
    let payload = offset_payload(9, b"xy").unwrap();
    assert_eq!(split_offset(&payload).unwrap(), (9, b"xy".to_vec()));
    assert_eq!(only_offset(&payload[..8]).unwrap(), 9);
    assert!(only_offset(&payload).is_err());
    assert!(split_offset(&payload[..7]).is_err());
}

#[test]
fn opening_lines_end_at_their_newline() {
    assert_eq!(read_line(b"abc\nrest").unwrap().unwrap(), b"abc");
    assert!(read_line(b"").unwrap().is_none());
    assert_eq!(read_line(b"abc").unwrap_err(), ProtocolError::OpeningEnded);
    let mut reader = LineReader::new();
    for _ in 0..MAX_JSON_LINE {
        assert_eq!(reader.accept(Some(b'x')).unwrap(), LineStep::More);
    }
    assert_eq!(reader.accept(Some(b'x')).unwrap_err(), ProtocolError::OpeningTooLarge);
    let mut reader = LineReader::new();
    assert_eq!(reader.accept(None).unwrap(), LineStep::End);
    assert_eq!(reader.accept(Some(b'{')).unwrap(), LineStep::More);
    assert_eq!(reader.accept(Some(b'\n')).unwrap(), LineStep::Line);
    assert_eq!(reader.line, b"{");
}

#[test]
fn exits_map_to_process_codes() {
    assert_eq!(ExitResult { code: Some(7), signal: None }.process_code(), 7);
    assert_eq!(ExitResult { code: None, signal: Some(9) }.process_code(), 137);
    assert!(ExitResult { code: Some(255), signal: None }.validate().is_ok());
    assert!(ExitResult { code: Some(256), signal: None }.validate().is_err());
}
