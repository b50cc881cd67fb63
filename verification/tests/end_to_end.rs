use pipekeep::broker::bounds::ReadResult;
use pipekeep::broker::opening::{AttachKind, Route};
use pipekeep::broker::replay::read_length;
use pipekeep::broker::sender::{BufferedSender, Receipts, SendNext};
use pipekeep::broker::{Broker, Stream};
use pipekeep::group_pidfd::GroupSignal;
use pipekeep::protocol::{
    read_frame, write_frame, ClientAction, ClientHello, Direction, ExitResult, Frame, JsonPayload,
    OutputOffsets, ServerHello,
};
use pipekeep::server::{
    attach_request, open, RawForward, RawForwardStep, Relay, RelayStep, ServerFlags, ServerOpening,
};

struct NoHandle;

impl GroupSignal for NoHandle {
    fn signal(&self, _signal: i32) -> Result<bool, String> {
        panic!("an ordinary session has no handle");
    }
}

/// A session whose command, files and pipes are in memory.
struct World {
    broker: Broker<NoHandle>,
    stdout: Vec<u8>,
    stderr: Vec<u8>,
    stdin: Vec<u8>,
    launches: usize,
}

/// An attachment as its client sees it.
struct Attachment {
    generation: u64,
    hello: ServerHello,
    sender: BufferedSender,
    relay: Relay,
    forward: RawForward,
    stdout: Vec<u8>,
    stderr: Vec<u8>,
    exit: Option<i32>,
}

fn hello(offsets: Option<(u64, u64)>, stdin_eof: Option<u64>) -> ClientHello {
    ClientHello {
        offsets: offsets.map(|(stdout, stderr)| OutputOffsets { stdout, stderr }),
        stdin_eof,
        ..ClientHello::default()
    }
}

fn eof_control(offset: u64) -> ClientHello {
    ClientHello {
        action: Some(ClientAction::StdinEof),
        stdin_eof: Some(offset),
        ..ClientHello::default()
    }
}

impl World {
    fn new(nobuffer: bool) -> Self {
        World {
            broker: Broker::new(nobuffer, None, None, 0, 0),
            stdout: Vec::new(),
            stderr: Vec::new(),
            stdin: Vec::new(),
            launches: 0,
        }
    }

    /// What an invocation comes to: an attachment, or the error that it prints.
    fn attach(&mut self, hello: ClientHello, force: bool) -> Result<Attachment, String> {
        let flags = ServerFlags {
            force,
            group_pidfd: false,
            framed: false,
            output_bounded: false,
            output_limit: None,
        };
        let opening = match open(flags, hello) {
            ServerOpening::Refuse(refusal) => return Err(refusal.message()),
            ServerOpening::DeclareEof { .. } => panic!("expected a data attachment"),
            ServerOpening::Create(opening) => {
                self.launches += 1;
                opening
            }
            ServerOpening::Attach(opening) => opening,
        };
        match self.broker.route(attach_request(opening)) {
            Route::Attach { kind, offsets, stdin_start, stdin_eof, force } => {
                let (lease, hello) = self
                    .broker
                    .attach(kind, offsets, stdin_start, stdin_eof, force)
                    .map_err(|error| error.message())?;
                Ok(Attachment {
                    generation: lease.generation,
                    sender: BufferedSender::new(
                        lease.generation,
                        hello.offsets.stdout,
                        hello.offsets.stderr,
                    ),
                    relay: Relay::begin(AttachKind::Raw, &hello),
                    forward: RawForward { position: hello.offsets.stdin, eof: stdin_eof },
                    hello,
                    stdout: Vec::new(),
                    stderr: Vec::new(),
                    exit: None,
                })
            }
            Route::Refuse(error) => Err(error.message()),
            _ => panic!("expected an attachment"),
        }
    }

    fn control(&mut self, hello: ClientHello) -> Result<Option<u64>, String> {
        let flags = ServerFlags {
            force: false,
            group_pidfd: false,
            framed: false,
            output_bounded: false,
            output_limit: None,
        };
        match open(flags, hello) {
            ServerOpening::DeclareEof { offset } => {
                self.broker
                    .session
                    .declare_stdin_eof(offset)
                    .map_err(|error| error.message())?;
                Ok(self.broker.session.meta.stdin_eof_at)
            }
            _ => panic!("expected a control"),
        }
    }

    fn write(&mut self, stream: Stream, data: &[u8]) {
        self.broker.drain(stream, ReadResult::Bytes(data.len()), "");
        match stream {
            Stream::Stdout => self.stdout.extend_from_slice(data),
            Stream::Stderr => self.stderr.extend_from_slice(data),
        }
    }

    fn exit(&mut self, code: i32) {
        self.broker.drain(Stream::Stdout, ReadResult::Eof, "");
        self.broker.drain(Stream::Stderr, ReadResult::Eof, "");
        self.broker.record_exit(Ok(ExitResult { code: Some(code), signal: None }));
    }

    /// Sends bytes through an attachment, and says what the command received.
    fn send(&mut self, attachment: &mut Attachment, data: &[u8]) -> Vec<u8> {
        let mut received = Vec::new();
        let mut at = 0;
        while at < data.len() {
            let count = match attachment.forward.next(attachment.hello.stdin_eof) {
                RawForwardStep::Read(most) => most.min(data.len() - at),
                _ => break,
            };
            let frame = attachment.forward.frame(data[at..at + count].to_vec()).unwrap();
            at += count;
            let wire = write_frame(&frame, b"").unwrap();
            match read_frame(&wire, Direction::Input, JsonPayload::Unusable).unwrap().unwrap().0 {
                Frame::StdinData { offset, data } => {
                    let rooms = [data.len()];
                    let (report, error) =
                        self.broker.session.accept_stdin(attachment.generation, offset, &data, &rooms);
                    assert!(error.is_none());
                    received.extend_from_slice(&report.written);
                }
                _ => panic!("expected input"),
            }
        }
        self.stdin.extend_from_slice(&received);
        received
    }

    /// Delivers whatever the session has for an attachment.
    fn deliver(&mut self, attachment: &mut Attachment) {
        let mut receipts = Receipts::new();
        loop {
            let turn = match attachment.sender.turn(&self.broker.session, &mut receipts) {
                Some(turn) => turn,
                None => return,
            };
            let frame = match turn.next {
                SendNext::Wait => return,
                SendNext::Exit(exit) => Frame::Exit(exit),
                SendNext::Read { stream, offset, end } => {
                    let file = match stream {
                        Stream::Stdout => &self.stdout,
                        Stream::Stderr => &self.stderr,
                    };
                    let count = read_length(offset, end);
                    let data = file[offset as usize..offset as usize + count].to_vec();
                    assert!(attachment.sender.sent(&self.broker.session, stream, count));
                    match stream {
                        Stream::Stdout => Frame::StdoutData { offset, data },
                        Stream::Stderr => Frame::StderrData { offset, data },
                    }
                }
            };
            let wire = write_frame(&frame, b"").unwrap();
            let (frame, _) = read_frame(&wire, Direction::Output, JsonPayload::Unusable).unwrap().unwrap();
            match attachment.relay.frame(&frame).unwrap() {
                RelayStep::Write { stream: Stream::Stdout, data } => {
                    attachment.stdout.extend_from_slice(&data);
                }
                RelayStep::Write { stream: Stream::Stderr, data } => {
                    attachment.stderr.extend_from_slice(&data);
                }
                RelayStep::End(code) => {
                    attachment.exit = Some(code);
                    return;
                }
                _ => {}
            }
        }
    }
}

#[test]
fn remote_protocol_exposes_raw_standard_streams() {
    let input = b"line one\n\0line two";
    let mut world = World::new(false);
    let mut client = world.attach(hello(None, Some(input.len() as u64)), false).unwrap();
    assert_eq!(client.hello.offsets.stdin, 0);
    let received = world.send(&mut client, input);
    world.write(Stream::Stdout, &received);
    assert!(world.broker.session.meta.stdin_eof);
    world.write(Stream::Stderr, b"raw-error");
    world.exit(9);
    world.deliver(&mut client);
    assert_eq!(client.exit, Some(9));
    assert_eq!(client.stdout, input);
    assert_eq!(client.stderr, b"raw-error");
}

#[test]
fn stdin_eof_control_is_sticky_and_idempotent() {
    let mut world = World::new(false);
    let mut client = world.attach(hello(None, None), false).unwrap();
    assert_eq!(client.hello.offsets.stdin, 0);
    let received = world.send(&mut client, b"abc");
    world.write(Stream::Stdout, &received);
    for _ in 0..2 {
        assert_eq!(world.control(eof_control(3)).unwrap(), Some(3));
    }
    assert!(!world.broker.session.stdin_open);
    world.write(Stream::Stdout, b"done");
    world.exit(0);
    world.deliver(&mut client);
    assert_eq!(client.exit, Some(0));
    assert_eq!(client.stdout, b"abcdone");
}

#[test]
fn replays_buffered_output_at_explicit_offsets_after_exit() {
    let mut world = World::new(false);
    let mut first = world.attach(hello(None, Some(0)), false).unwrap();
    assert_eq!(first.hello.offsets.stdin, 0);
    world.write(Stream::Stdout, b"abcdef");
    world.write(Stream::Stderr, b"uvwxyz");
    world.exit(0);
    world.deliver(&mut first);
    assert_eq!(first.exit, Some(0));
    assert_eq!(first.stdout, b"abcdef");
    assert_eq!(first.stderr, b"uvwxyz");
    world.broker.session.compare_clear_attachment(first.generation);

    // Terminal replay from explicit mid-stream offsets after the command and
    // its first attachment have both finished.
    let mut second = world.attach(hello(Some((3, 4)), None), false).unwrap();
    assert_eq!(second.hello.offsets.stdout, 3);
    assert_eq!(second.hello.offsets.stderr, 4);
    assert!(second.hello.stdin_eof);
    assert_eq!(second.hello.stdout_eof, Some(6));
    assert_eq!(second.hello.stderr_eof, Some(6));
    assert_eq!(second.hello.exit.unwrap().code, Some(0));
    world.deliver(&mut second);
    assert_eq!(second.exit, Some(0));
    assert_eq!(second.stdout, b"def");
    assert_eq!(second.stderr, b"yz");
    world.broker.session.compare_clear_attachment(second.generation);

    // Full replay from zero is still available.
    let mut third = world.attach(hello(Some((0, 0)), None), false).unwrap();
    world.deliver(&mut third);
    assert_eq!(third.exit, Some(0));
    assert_eq!(third.stdout, b"abcdef");
    assert_eq!(third.stderr, b"uvwxyz");
}

#[test]
fn resumes_stdin_at_broker_position_with_sticky_eof() {
    let mut world = World::new(false);
    let mut first = world.attach(hello(None, None), false).unwrap();
    assert_eq!(first.hello.offsets.stdin, 0);
    let received = world.send(&mut first, b"abc");
    world.write(Stream::Stdout, &received);
    world.deliver(&mut first);
    assert_eq!(first.stdout, b"abc");
    world.broker.session.compare_clear_attachment(first.generation);

    let mut second = world.attach(hello(Some((3, 0)), Some(6)), false).unwrap();
    assert_eq!(second.hello.offsets.stdin, 3);
    assert_eq!(second.hello.offsets.stdout, 3);
    let received = world.send(&mut second, b"def");
    world.write(Stream::Stdout, &received);
    world.exit(0);
    world.deliver(&mut second);
    assert_eq!(second.exit, Some(0));
    assert_eq!(second.stdout, b"def");

    // Redeclaring the same absolute EOF is idempotent even after exit.
    assert_eq!(world.control(eof_control(6)).unwrap(), Some(6));
    assert!(world.broker.session.meta.stdin_eof);

    // A conflicting EOF position is rejected, not silently adopted.
    assert!(world.control(eof_control(7)).unwrap_err().contains("already declared"));
}

#[test]
fn rejects_second_concurrent_data_attachment() {
    let mut world = World::new(false);
    let mut first = world.attach(hello(None, None), false).unwrap();
    let refused = world.attach(hello(Some((0, 0)), None), false).err().unwrap();
    assert!(refused.contains("already has an attached client"));

    // A control declaration is still allowed alongside the data attachment
    // and cleanly ends the session command.
    world.control(eof_control(0)).unwrap();
    assert!(!world.broker.session.stdin_open);
    world.exit(0);
    world.deliver(&mut first);
    assert_eq!(first.exit, Some(0));
}

#[test]
fn forced_attachment_replaces_current_without_relaunching_command() {
    let mut world = World::new(false);
    let mut first = world.attach(hello(None, None), false).unwrap();
    assert_eq!(first.hello.offsets.stdout, 0);
    world.write(Stream::Stdout, b"out1");
    world.write(Stream::Stderr, b"err1");
    world.deliver(&mut first);
    assert_eq!(first.stdout, b"out1");
    assert_eq!(first.stderr, b"err1");

    let mut second = world.attach(hello(Some((4, 4)), Some(3)), true).unwrap();
    let received = world.send(&mut second, b"abc");
    world.write(Stream::Stdout, &received);
    world.write(Stream::Stdout, b"out2");
    world.write(Stream::Stderr, b"err2");
    world.exit(0);
    world.deliver(&mut first);
    assert_eq!(first.exit, None);
    world.deliver(&mut second);
    assert_eq!(world.launches, 1);
    assert_eq!(second.exit, Some(0));
    assert_eq!(second.hello.offsets.stdout, 4);
    assert_eq!(second.hello.offsets.stderr, 4);
    assert_eq!(second.stdout, b"abcout2");
    assert_eq!(second.stderr, b"err2");
}

#[test]
fn forced_ahead_offset_divests_then_leaves_unattached_for_recovery() {
    let mut world = World::new(false);
    let mut first = world.attach(hello(None, None), false).unwrap();
    world.write(Stream::Stdout, b"abc");
    world.write(Stream::Stderr, b"err");
    world.deliver(&mut first);
    assert_eq!(first.stdout, b"abc");
    assert_eq!(first.stderr, b"err");

    let refused = world.attach(hello(Some((99, 0)), None), true).err().unwrap();
    assert!(refused.contains("requested output offset is ahead"));
    assert!(!world.broker.session.is_current_attachment(first.generation));
    assert_eq!(world.broker.session.attachment.current, None);

    world.write(Stream::Stdout, b"done");
    world.write(Stream::Stderr, b"fin");
    world.exit(0);
    let mut recovered = world.attach(hello(Some((0, 0)), Some(0)), true).unwrap();
    world.deliver(&mut recovered);
    assert_eq!(recovered.exit, Some(0));
    assert_eq!(recovered.hello.offsets.stdout, 0);
    assert_eq!(recovered.stdout, b"abcdone");
    assert_eq!(recovered.stderr, b"errfin");
}

#[test]
fn forced_invalid_stdin_eof_divests_without_mutating_stdin_state() {
    let mut world = World::new(false);
    let mut first = world.attach(hello(None, None), false).unwrap();
    let received = world.send(&mut first, b"abc");
    world.write(Stream::Stdout, &received);
    world.deliver(&mut first);
    assert_eq!(first.stdout, b"abc");

    let refused = world.attach(hello(Some((3, 0)), Some(2)), true).err().unwrap();
    assert!(refused.contains("behind accepted byte 3"));
    assert!(!world.broker.session.is_current_attachment(first.generation));
    assert_eq!(world.broker.session.meta.stdin_eof_at, None);

    let mut recovered = world.attach(hello(Some((3, 0)), Some(6)), true).unwrap();
    assert_eq!(recovered.hello.offsets.stdin, 3);
    let received = world.send(&mut recovered, b"def");
    world.write(Stream::Stdout, &received);
    world.exit(0);
    world.deliver(&mut recovered);
    assert_eq!(recovered.exit, Some(0));
    assert_eq!(recovered.stdout, b"def");
}

#[test]
fn forced_frontend_inconsistent_stdin_offsets_take_over_before_broker_rejects() {
    let mut world = World::new(false);
    let mut first = world.attach(hello(None, None), false).unwrap();
    let received = world.send(&mut first, b"abcdef");
    world.write(Stream::Stdout, &received);
    world.deliver(&mut first);
    assert_eq!(first.stdout, b"abcdef");

    let inconsistent = ClientHello { stdin_start: 6, ..hello(Some((6, 0)), Some(5)) };
    let refused = world.attach(inconsistent, true).err().unwrap();
    assert!(refused.contains("behind accepted byte 6"));
    assert!(!world.broker.session.is_current_attachment(first.generation));

    let consistent = ClientHello { stdin_start: 6, ..hello(Some((6, 0)), Some(9)) };
    let mut recovered = world.attach(consistent, true).unwrap();
    assert_eq!(recovered.hello.offsets.stdin, 6);
    let received = world.send(&mut recovered, b"ghi");
    world.write(Stream::Stdout, &received);
    world.exit(0);
    world.deliver(&mut recovered);
    assert_eq!(recovered.exit, Some(0));
    assert_eq!(recovered.stdout, b"ghi");
}

#[test]
fn forced_nobuffer_opening_failure_divests_and_does_not_restore() {
    let mut world = World::new(true);
    let first = world.attach(hello(None, None), false).unwrap();
    world.write(Stream::Stdout, b"abc");
    let refused = world.attach(hello(Some((99, 0)), None), true).err().unwrap();
    assert!(refused.contains("requested output offset is ahead"));
    assert!(!world.broker.session.is_current_attachment(first.generation));
    let recovered = world.attach(hello(Some((0, 0)), Some(0)), true).unwrap();
    assert!(recovered.hello.nobuffer);
    assert_eq!(recovered.hello.offsets.stdout, 3);
}

#[test]
fn displaced_cleanup_cannot_clear_replacement() {
    let mut world = World::new(false);
    let first = world.attach(hello(None, None), false).unwrap();
    let mut second = world.attach(hello(Some((0, 0)), Some(1)), true).unwrap();
    assert_eq!(second.hello.offsets.stdout, 0);
    world.broker.session.compare_clear_attachment(first.generation);
    let received = world.send(&mut second, b"z");
    world.write(Stream::Stdout, &received);
    world.write(Stream::Stdout, b"done");
    world.exit(0);
    world.deliver(&mut second);
    assert_eq!(second.exit, Some(0));
    assert_eq!(second.stdout, b"zdone");
}

#[test]
fn delayed_stdin_from_displaced_attachment_is_ignored() {
    let mut world = World::new(false);
    let mut first = world.attach(hello(None, None), false).unwrap();
    let mut second = world.attach(hello(Some((0, 0)), Some(1)), true).unwrap();
    let stale = world.send(&mut first, b"A");
    assert!(stale.is_empty());
    let received = world.send(&mut second, b"B");
    world.write(Stream::Stdout, &received);
    world.exit(0);
    world.deliver(&mut second);
    assert_eq!(second.exit, Some(0));
    assert_eq!(second.stdout, b"B");
    assert_eq!(world.stdin, b"B");
}

#[test]
fn forced_replacement_during_output_preserves_contiguous_replay() {
    let mut world = World::new(false);
    let mut first = world.attach(hello(None, None), false).unwrap();
    for c in [b"a", b"b", b"c"] {
        world.write(Stream::Stdout, c);
    }
    world.deliver(&mut first);
    assert_eq!(first.stdout, b"abc");
    let mut second = world.attach(hello(Some((3, 0)), Some(0)), true).unwrap();
    for c in [b"d", b"e", b"f", b"g", b"h", b"i", b"j"] {
        world.write(Stream::Stdout, c);
        world.deliver(&mut first);
        world.deliver(&mut second);
    }
    world.exit(0);
    world.deliver(&mut second);
    assert_eq!(second.exit, Some(0));
    let mut combined = first.stdout.clone();
    combined.extend_from_slice(&second.stdout);
    assert_eq!(combined, b"abcdefghij");
}

#[test]
fn forced_replacement_after_workload_exit_replays_terminal_state() {
    let mut world = World::new(false);
    world.attach(hello(None, Some(0)), false).unwrap();
    world.write(Stream::Stdout, b"out");
    world.write(Stream::Stderr, b"err");
    world.exit(7);
    let mut second = world.attach(hello(Some((0, 0)), None), true).unwrap();
    assert_eq!(second.hello.exit.unwrap().code, Some(7));
    world.deliver(&mut second);
    assert_eq!(second.exit, Some(7));
    assert_eq!(second.stdout, b"out");
    assert_eq!(second.stderr, b"err");
}

#[test]
fn force_create_is_rejected_before_launch_or_mutation() {
    let mut world = World::new(false);
    let refused = world.attach(hello(None, None), true).err().unwrap();
    assert!(refused.contains("cannot create"));
    assert_eq!(world.launches, 0);
    assert_eq!(world.broker.session.attachment.next_generation, 1);
}
