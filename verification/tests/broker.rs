use pipekeep::broker::{declare_stdin_eof_locked, Meta, Session, StdinError};

#[test]
fn superseded_opening_cannot_mutate_stdin_state_or_close_child_stdin() {
    let mut session = Session::new(true);
    let old = session.install_attachment(false).unwrap().generation;
    let new = session.install_attachment(true).unwrap().generation;

    session.apply_opening_stdin(old, 5, Some(5)).unwrap();

    assert_eq!(session.meta.stdin_position, 0);
    assert_eq!(session.meta.stdin_eof_at, None);
    assert!(!session.meta.stdin_eof);
    assert!(session.stdin_open);
    assert!(session.is_current_attachment(new));
}

#[test]
fn superseded_stdin_data_cannot_record_position_or_close_child_stdin() {
    let mut session = Session::new(false);
    let old = session.install_attachment(false).unwrap().generation;
    let new = session.install_attachment(true).unwrap().generation;

    let (report, error) = session.accept_stdin(old, 0, b"x", &[1]);
    assert!(error.is_none());

    assert_eq!(session.meta.stdin_position, 0);
    assert_eq!(session.meta.stdin_eof_at, None);
    assert!(!session.meta.stdin_eof);
    assert!(report.acknowledgements.is_empty());
    assert!(report.written.is_empty());
    assert!(session.stdin_open);
    assert!(session.is_current_attachment(new));
}

#[test]
fn nobuffer_empty_frame_advancing_to_eof_closes_under_authority() {
    let mut session = Session::new(true);
    let generation = session.install_attachment(false).unwrap().generation;
    session.meta.stdin_eof_at = Some(5);

    let (report, error) = session.accept_stdin(generation, 5, b"", &[]);
    assert!(error.is_none());

    assert_eq!(session.meta.stdin_position, 5);
    assert_eq!(session.meta.stdin_eof_at, Some(5));
    assert!(session.meta.stdin_eof);
    assert_eq!(report.acknowledgements, [5]);
    assert!(report.written.is_empty());
    assert!(report.done);
    assert!(!session.stdin_open);
}

#[test]
fn superseded_attachment_eof_cannot_mutate_sticky_state_or_close_child_stdin() {
    let mut session = Session::new(false);
    let old = session.install_attachment(false).unwrap().generation;
    let new = session.install_attachment(true).unwrap().generation;

    let acknowledged = session.accept_stdin_eof(old, 0).unwrap();

    assert_eq!(session.meta.stdin_eof_at, None);
    assert!(!session.meta.stdin_eof);
    assert!(acknowledged.is_none());
    assert!(session.stdin_open);
    assert!(session.is_current_attachment(new));
}

#[test]
fn old_generation_cleanup_cannot_clear_newer_attachment() {
    let mut session = Session::new(false);
    let old = session.install_attachment(false).unwrap().generation;
    let new = session.install_attachment(true).unwrap().generation;

    session.compare_clear_attachment(old);
    assert!(session.is_current_attachment(new));
    session.compare_clear_attachment(new);
    assert!(!session.is_current_attachment(new));
}

#[test]
fn a_second_attachment_needs_force() {
    let mut session = Session::new(false);
    let first = session.install_attachment(false).unwrap();
    assert_eq!(first.generation, 1);
    assert_eq!(first.displaced, None);
    assert!(session.install_attachment(false).is_none());
    let second = session.install_attachment(true).unwrap();
    assert_eq!(second.displaced, Some(1));
}

#[test]
fn stdin_is_written_as_far_as_there_is_room() {
    let mut session = Session::new(false);
    let generation = session.install_attachment(false).unwrap().generation;
    let (report, error) = session.accept_stdin(generation, 0, b"hello", &[2, 3]);
    assert!(error.is_none() && report.done);
    assert_eq!(report.written, b"hello");
    assert_eq!(report.acknowledgements, [2, 5, 5]);
    assert_eq!(session.meta.stdin_position, 5);

    // A frame that was sent again adds only its new bytes.
    let (report, error) = session.accept_stdin(generation, 3, b"lo!", &[9]);
    assert!(error.is_none());
    assert_eq!(report.written, b"!");
    assert_eq!(session.meta.stdin_position, 6);

    // A command that closed its input takes no more.
    let (report, error) = session.accept_stdin(generation, 6, b"x", &[0]);
    assert_eq!(error, Some(StdinError::PipeClosed));
    assert!(report.written.is_empty());
}

#[test]
fn stdin_gaps_and_data_behind_the_end_are_refused() {
    let mut session = Session::new(false);
    let generation = session.install_attachment(false).unwrap().generation;
    let (_, error) = session.accept_stdin(generation, 4, b"x", &[1]);
    assert_eq!(error, Some(StdinError::Gap(0)));
    assert_eq!(error.unwrap().message(), "stdin contains a gap at offset 0");

    assert_eq!(session.accept_stdin_eof(generation, 3).unwrap(), Some(0));
    let (_, error) = session.accept_stdin(generation, 0, b"long", &[4]);
    assert_eq!(error, Some(StdinError::BeyondDeclared));
    let (report, error) = session.accept_stdin(generation, 0, b"abc", &[3]);
    assert!(error.is_none() && report.done);
    assert!(session.meta.stdin_eof);
    assert!(!session.stdin_open);
    let (_, error) = session.accept_stdin(generation, 3, b"d", &[1]);
    assert_eq!(error, Some(StdinError::AfterEof));
}

#[test]
fn a_frame_past_the_last_position_overflows() {
    let mut session = Session::new(true);
    let generation = session.install_attachment(false).unwrap().generation;
    let (_, error) = session.accept_stdin(generation, u64::MAX, b"xy", &[2]);
    assert_eq!(error, Some(StdinError::Overflow));
    assert_eq!(error.unwrap().message(), "stdin frame position overflowed");
}

#[test]
fn a_declared_end_is_sticky() {
    let mut meta = Meta::default();
    assert_eq!(declare_stdin_eof_locked(&mut meta, 4), Ok(false));
    assert_eq!(declare_stdin_eof_locked(&mut meta, 4), Ok(false));
    assert_eq!(declare_stdin_eof_locked(&mut meta, 5), Err(StdinError::AlreadyDeclared(4)));
    meta.stdin_position = 4;
    assert_eq!(declare_stdin_eof_locked(&mut meta, 4), Ok(true));
    assert!(meta.stdin_eof);
    let refused = declare_stdin_eof_locked(&mut meta, 3).unwrap_err();
    assert_eq!(refused, StdinError::EofBehind { offset: 3, position: 4 });
    assert_eq!(refused.message(), "stdin EOF at byte 3 is behind accepted byte 4");
}

#[test]
fn openings_cannot_skip_buffered_input() {
    let mut buffered = Session::new(false);
    let generation = buffered.install_attachment(false).unwrap().generation;
    let refused = buffered.apply_opening_stdin(generation, 5, None).unwrap_err();
    assert_eq!(refused, StdinError::OpeningGap(0));
    assert_eq!(refused.message(), "buffered stdin contains a gap at byte 0");

    let mut live = Session::new(true);
    let generation = live.install_attachment(false).unwrap().generation;
    live.apply_opening_stdin(generation, 5, Some(9)).unwrap();
    assert_eq!(live.meta.stdin_position, 5);
    assert_eq!(live.meta.stdin_eof_at, Some(9));
    assert_eq!(
        live.apply_opening_stdin(generation, 10, None),
        Err(StdinError::StartBeyondDeclared)
    );
    live.apply_opening_stdin(generation, 9, None).unwrap();
    assert!(live.meta.stdin_eof);
    assert_eq!(
        live.apply_opening_stdin(generation, 10, None),
        Err(StdinError::StartBeyondEof)
    );
}

#[test]
fn replayed_input_arrives_once_across_attachments() {
    let input = b"abcdefghij";
    let mut session = Session::new(false);
    let mut taken = Vec::new();
    let first = session.install_attachment(false).unwrap().generation;
    let (report, _) = session.accept_stdin(first, 0, &input[0..6], &[4]);
    assert!(!report.done);
    taken.extend_from_slice(&report.written);
    // The transport is lost; its replacement sends everything again.
    let second = session.install_attachment(true).unwrap().generation;
    for (generation, from, to, room) in [
        (first, 4, 6, 9),
        (second, 0, 3, 9),
        (second, 2, 8, 3),
        (second, 6, 10, 9),
    ] {
        let (report, error) =
            session.accept_stdin(generation, from as u64, &input[from..to], &[room, room]);
        assert!(error.is_none());
        taken.extend_from_slice(&report.written);
    }
    assert_eq!(taken, input);
    assert_eq!(session.meta.stdin_position, 10);
}
