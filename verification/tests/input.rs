use pipekeep::input::{InputMeta, InputPart, LIVE_STDIN_CAPACITY};

#[test]
fn live_stdin_window_keeps_newest_bounded_tail() {
    let mut meta = InputMeta::default();
    meta.end += LIVE_STDIN_CAPACITY as u64;
    meta.retain_live_tail(&vec![b'a'; LIVE_STDIN_CAPACITY]);
    assert_eq!(meta.live_base, 0);
    assert_eq!(meta.live.len(), LIVE_STDIN_CAPACITY);

    meta.end += 3;
    meta.retain_live_tail(b"xyz");
    assert_eq!(meta.live_base, 3);
    assert_eq!(meta.live.len(), LIVE_STDIN_CAPACITY);
    assert!(meta
        .live
        .iter()
        .skip(LIVE_STDIN_CAPACITY - 3)
        .eq(b"xyz".iter()));
}

#[test]
fn live_stdin_replays_retained_tail_and_exposes_discarded_range() {
    let discarded = 100_usize;
    let head = vec![b'a'; LIVE_STDIN_CAPACITY];
    let tail = vec![b'b'; discarded];
    let mut input = InputMeta::new();
    input.accepted(&head, false);
    input.accepted(&tail, false);
    let base = discarded as u64;
    let end = (LIVE_STDIN_CAPACITY + discarded) as u64;

    // The opening handshake advertises the first retained byte.
    let state = input.attachment_state(false);
    assert_eq!(state.start, base);
    assert_eq!(state.eof, None);

    // A position inside the window replays exactly the retained bytes.
    match input.next(LIVE_STDIN_CAPACITY as u64, false) {
        InputPart::Data { offset, data } => {
            assert_eq!(offset, LIVE_STDIN_CAPACITY as u64);
            assert_eq!(data, tail);
        }
        _ => panic!("expected retained data"),
    }

    // A position before the window jumps forward to the retained base:
    // the discarded range appears as an offset gap, never as other bytes.
    match input.next(0, false) {
        InputPart::Data { offset, data } => {
            assert_eq!(offset, base);
            assert!(data.iter().all(|byte| *byte == b'a'));
        }
        _ => panic!("expected data at the retained base"),
    }

    // Nothing beyond the end until EOF is recorded.
    assert!(matches!(input.next(end, false), InputPart::Wait));
    input.eof = true;
    match input.next(end, false) {
        InputPart::Eof { offset } => assert_eq!(offset, end),
        _ => panic!("expected EOF at the absolute end"),
    }
}

#[test]
fn buffered_input_is_read_back_from_its_file() {
    let mut input = InputMeta::new();
    input.accepted(b"hello", true);
    assert_eq!(input.end, 5);
    assert_eq!(input.live.len(), 0);
    assert_eq!(input.attachment_state(true).start, 0);
    match input.next(2, true) {
        InputPart::File { offset, count } => {
            assert_eq!(offset, 2);
            assert_eq!(count, 3);
        }
        _ => panic!("expected a part of the file"),
    }
    assert!(matches!(input.next(5, true), InputPart::Wait));
    input.ended();
    assert_eq!(input.attachment_state(true).eof, Some(5));
    assert!(matches!(input.next(5, true), InputPart::Eof { offset: 5 }));
}

#[test]
fn the_window_does_not_depend_on_how_input_was_cut() {
    let whole: Vec<u8> = (0..LIVE_STDIN_CAPACITY + 777).map(|i| (i % 251) as u8).collect();
    let mut once = InputMeta::new();
    once.accepted(&whole, false);
    let mut pieces = InputMeta::new();
    for piece in whole.chunks(1000) {
        pieces.accepted(piece, false);
    }
    assert_eq!(once.live_base, 777);
    assert_eq!(pieces.live_base, 777);
    assert!(once.live.iter().eq(pieces.live.iter()));
    assert!(once.live.iter().eq(whole[777..].iter()));
}
