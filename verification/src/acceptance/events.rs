//! What the transports of the input trial wrote down, and what it has to show.
use vstd::prelude::*;

use crate::json;
use crate::json::{json_at, JsonAt, JsonView};
use crate::text;
use crate::text::{decimal_text, join3, str_equal};

verus! {

/// What a transport wrote down.
#[derive(Clone, Copy, Debug, PartialEq, Eq, Structural)]
pub enum EventKind {
    /// The client opened an attachment, for data unless it names an action.
    ClientHello { data: bool, stdin_eof: Option<u64> },
    /// The server reported the position of the input.
    ServerHello { stdin: Option<u64> },
    /// The first bytes of input came through.
    RawChunk { offset: Option<u64>, valid: bool },
    /// Bytes came through that are not the input.
    RawMismatch,
    Other,
}

/// What a transport wrote down, and which one.
#[derive(Clone, Copy, Debug, PartialEq, Eq, Structural)]
pub struct TransportEvent {
    pub pid: u64,
    pub kind: EventKind,
}

/// An optional number, with a value for its absence.
pub open spec fn number_or(found: Option<u64>, other: u64) -> u64 {
    match found {
        Some(value) => value,
        None => other,
    }
}

/// An event of which these members were found. Nothing means that the line is
/// not JSON.
pub open spec fn event_of(
    event: JsonView,
    pid: JsonView,
    action: JsonView,
    stdin_eof: JsonView,
    stdin: JsonView,
    offset: JsonView,
    valid: JsonView,
) -> Option<TransportEvent> {
    if event is Invalid {
        None
    } else {
        let kind = if event == JsonView::Text("client_hello"@) {
            EventKind::ClientHello {
                data: action is Missing || action is Null,
                stdin_eof: stdin_eof.unsigned(),
            }
        } else if event == JsonView::Text("server_hello"@) {
            EventKind::ServerHello { stdin: stdin.unsigned() }
        } else if event == JsonView::Text("raw_stdin_chunk"@) {
            EventKind::RawChunk {
                offset: offset.unsigned(),
                valid: valid == JsonView::Bool(true),
            }
        } else if event == JsonView::Text("raw_stdin_mismatch"@) {
            EventKind::RawMismatch
        } else {
            EventKind::Other
        };
        Some(TransportEvent { pid: number_or(pid.unsigned(), 0), kind })
    }
}

/// Makes an event of what was found on a line.
pub fn event_found(
    event: &JsonAt,
    pid: &JsonAt,
    action: &JsonAt,
    stdin_eof: &JsonAt,
    stdin: &JsonAt,
    offset: &JsonAt,
    valid: &JsonAt,
) -> (r: Option<TransportEvent>)
    ensures
        r == event_of(event@, pid@, action@, stdin_eof@, stdin@, offset@, valid@),
{
    let kind = match event {
        JsonAt::Invalid => {
            return None;
        },
        JsonAt::Text(word) => {
            if str_equal(word.as_str(), "client_hello") {
                let data = match action {
                    JsonAt::Missing | JsonAt::Null => true,
                    _ => false,
                };
                EventKind::ClientHello { data, stdin_eof: stdin_eof.unsigned() }
            } else if str_equal(word.as_str(), "server_hello") {
                EventKind::ServerHello { stdin: stdin.unsigned() }
            } else if str_equal(word.as_str(), "raw_stdin_chunk") {
                let is_valid = match valid {
                    JsonAt::Bool(value) => *value,
                    _ => false,
                };
                EventKind::RawChunk { offset: offset.unsigned(), valid: is_valid }
            } else if str_equal(word.as_str(), "raw_stdin_mismatch") {
                EventKind::RawMismatch
            } else {
                EventKind::Other
            }
        },
        _ => EventKind::Other,
    };
    let pid: u64 = match pid.unsigned() {
        Some(value) => value,
        None => 0,
    };
    Some(TransportEvent { pid, kind })
}

/// Reads the event on a line.
pub fn read_event(line: &[u8]) -> (r: Option<TransportEvent>)
    ensures
        r == event_of(
            json::json_lookup(line@, "/event"@),
            json::json_lookup(line@, "/pid"@),
            json::json_lookup(line@, "/action"@),
            json::json_lookup(line@, "/stdin_eof"@),
            json::json_lookup(line@, "/stdin"@),
            json::json_lookup(line@, "/offset"@),
            json::json_lookup(line@, "/valid"@),
        ),
{
    event_found(
        &json_at(line, "/event"),
        &json_at(line, "/pid"),
        &json_at(line, "/action"),
        &json_at(line, "/stdin_eof"),
        &json_at(line, "/stdin"),
        &json_at(line, "/offset"),
        &json_at(line, "/valid"),
    )
}

/// Where an event is that shows broken input, if there is one: the first.
pub open spec fn is_broken(kind: EventKind) -> bool {
    match kind {
        EventKind::RawChunk { valid, .. } => !valid,
        EventKind::RawMismatch => true,
        _ => false,
    }
}

/// The processes that opened an attachment for data, without repetition, in
/// the order in which they did.
pub open spec fn data_pids(events: Seq<TransportEvent>) -> Seq<u64>
    decreases events.len(),
{
    if events.len() == 0 {
        Seq::empty()
    } else {
        let before = data_pids(events.drop_last());
        let event = events.last();
        match event.kind {
            EventKind::ClientHello { data, .. } => if data && !before.contains(event.pid) {
                before.push(event.pid)
            } else {
                before
            },
            _ => before,
        }
    }
}

/// The last opening that the client of `pid` sent, if it sent one.
pub open spec fn last_client(events: Seq<TransportEvent>, pid: u64) -> Option<(bool, Option<u64>)>
    decreases events.len(),
{
    if events.len() == 0 {
        None
    } else {
        match events.last().kind {
            EventKind::ClientHello { data, stdin_eof } if events.last().pid == pid => Some(
                (data, stdin_eof),
            ),
            _ => last_client(events.drop_last(), pid),
        }
    }
}

/// The last position that the server of `pid` reported, if it reported one.
pub open spec fn last_server(events: Seq<TransportEvent>, pid: u64) -> Option<Option<u64>>
    decreases events.len(),
{
    if events.len() == 0 {
        None
    } else {
        match events.last().kind {
            EventKind::ServerHello { stdin } if events.last().pid == pid => Some(stdin),
            _ => last_server(events.drop_last(), pid),
        }
    }
}

/// Where the input through `pid` began, if any came.
pub open spec fn last_chunk(events: Seq<TransportEvent>, pid: u64) -> Option<Option<u64>>
    decreases events.len(),
{
    if events.len() == 0 {
        None
    } else {
        match events.last().kind {
            EventKind::RawChunk { offset, .. } if events.last().pid == pid => Some(offset),
            _ => last_chunk(events.drop_last(), pid),
        }
    }
}

/// What the transport `pid` shows.
#[derive(Clone, Copy, Debug, PartialEq, Eq, Structural)]
pub struct Shown {
    /// It resumed the input at a proper prefix.
    pub resumed: bool,
    /// The input through it began where it resumed.
    pub suffix: bool,
    /// It carried the end of the input to a session that lacked some of it.
    pub end: bool,
}

/// What the transport `pid` shows for an input of `length` bytes.
pub open spec fn shown_by(events: Seq<TransportEvent>, length: usize, pid: u64) -> Shown {
    match (last_server(events, pid), last_client(events, pid)) {
        (Some(position), Some((true, stdin_eof))) => {
            let stdin = number_or(position, 0);
            let resumed = 0 < stdin < length;
            Shown {
                resumed,
                suffix: resumed && last_chunk(events, pid) == Some(Some(stdin)),
                end: stdin_eof == Some(length as u64) && stdin < length,
            }
        },
        _ => Shown { resumed: false, suffix: false, end: false },
    }
}

/// What is wrong with what the transports wrote down.
#[derive(Clone, Copy, Debug, PartialEq, Eq, Structural)]
pub enum EventsFault {
    /// Too few transports were cut.
    FewKills { killed: usize },
    /// Bytes came through that are not the input.
    InvalidChunk,
    /// A transport complained of such bytes, in the event at this index.
    Mismatch { index: usize },
    /// Data was not carried on often enough.
    FewTransports { data: usize, killed: usize },
    NoResume,
    NoSuffix,
    NoEnd,
}

impl EventsFault {
    /// The diagnostic for the fault. `event` is the event that it is about.
    pub open spec fn text(self, event: Seq<char>) -> Seq<char> {
        match self {
            EventsFault::FewKills { killed } => "stdin replay killed only "@ + text::decimal(
                killed as nat,
            ) + " transports"@,
            EventsFault::InvalidChunk => {
                "transport saw raw stdin bytes that did not match the framed input"@
            },
            EventsFault::Mismatch { .. } => "transport logged a raw stdin mismatch: "@ + event,
            EventsFault::FewTransports { data, killed } => {
                "stdin replay did not restart data transports repeatedly: data_pids="@
                    + text::decimal(data as nat) + " killed="@ + text::decimal(killed as nat)
            },
            EventsFault::NoResume => {
                "no resumed inner broker hello reported a nonzero proper stdin prefix"@
            },
            EventsFault::NoSuffix => {
                "no replayed stdin chunk started at the broker-reported suffix offset"@
            },
            EventsFault::NoEnd => {
                "no reconnect carried finite-producer EOF to a broker missing stdin suffix"@
            },
        }
    }

    pub fn message(&self, event: &str) -> (r: String)
        ensures
            r@ == self.text(event@),
    {
        match self {
            EventsFault::FewKills { killed } => join3(
                "stdin replay killed only ",
                decimal_text(*killed as u64).as_str(),
                " transports",
            ),
            EventsFault::InvalidChunk => {
                "transport saw raw stdin bytes that did not match the framed input".to_owned()
            },
            EventsFault::Mismatch { .. } => {
                text::join("transport logged a raw stdin mismatch: ", event)
            },
            EventsFault::FewTransports { data, killed } => {
                let mut r = join3(
                    "stdin replay did not restart data transports repeatedly: data_pids=",
                    decimal_text(*data as u64).as_str(),
                    " killed=",
                );
                r.append(decimal_text(*killed as u64).as_str());
                r
            },
            EventsFault::NoResume => {
                "no resumed inner broker hello reported a nonzero proper stdin prefix".to_owned()
            },
            EventsFault::NoSuffix => {
                "no replayed stdin chunk started at the broker-reported suffix offset".to_owned()
            },
            EventsFault::NoEnd => {
                "no reconnect carried finite-producer EOF to a broker missing stdin suffix".to_owned()
            },
        }
    }
}

/// The index of the first event that shows broken input, or the number of
/// events.
pub open spec fn first_broken(events: Seq<TransportEvent>, from: int) -> int
    decreases events.len() - from,
{
    if from < 0 || from >= events.len() || is_broken(events[from].kind) {
        from
    } else {
        first_broken(events, from + 1)
    }
}

/// Whether some transport shows that the input was resumed.
pub open spec fn some_resumed(events: Seq<TransportEvent>, length: usize) -> bool {
    exists|pid: u64| (#[trigger] shown_by(events, length, pid)).resumed
}

/// Whether some transport shows that the input went on where it was resumed.
pub open spec fn some_suffix(events: Seq<TransportEvent>, length: usize) -> bool {
    exists|pid: u64| (#[trigger] shown_by(events, length, pid)).suffix
}

/// Whether some transport shows that the end of the input was carried on.
pub open spec fn some_end(events: Seq<TransportEvent>, length: usize) -> bool {
    exists|pid: u64| (#[trigger] shown_by(events, length, pid)).end
}

/// What is wrong with what the transports wrote down of an input of `length`
/// bytes while `killed` of them were cut.
pub open spec fn events_fault(events: Seq<TransportEvent>, length: usize, killed: usize) -> Option<
    EventsFault,
> {
    let broken = first_broken(events, 0);
    if killed < 2 {
        Some(EventsFault::FewKills { killed })
    } else if broken < events.len() {
        if events[broken].kind is RawMismatch {
            Some(EventsFault::Mismatch { index: broken as usize })
        } else {
            Some(EventsFault::InvalidChunk)
        }
    } else if data_pids(events).len() < killed + 1 {
        Some(EventsFault::FewTransports { data: data_pids(events).len() as usize, killed })
    } else if !some_resumed(events, length) {
        Some(EventsFault::NoResume)
    } else if !some_suffix(events, length) {
        Some(EventsFault::NoSuffix)
    } else if !some_end(events, length) {
        Some(EventsFault::NoEnd)
    } else {
        None
    }
}

fn find_client(events: &[TransportEvent], pid: u64) -> (r: Option<(bool, Option<u64>)>)
    ensures
        r == last_client(events@, pid),
{
    let mut index: usize = events.len();
    assert(events@.take(index as int) =~= events@);
    while index > 0
        invariant
            index <= events@.len(),
            last_client(events@.take(index as int), pid) == last_client(events@, pid),
        decreases index,
    {
        assert(events@.take(index as int).drop_last() =~= events@.take(index - 1));
        index -= 1;
        if let EventKind::ClientHello { data, stdin_eof } = events[index].kind {
            if events[index].pid == pid {
                return Some((data, stdin_eof));
            }
        }
    }
    None
}

fn find_server(events: &[TransportEvent], pid: u64) -> (r: Option<Option<u64>>)
    ensures
        r == last_server(events@, pid),
{
    let mut index: usize = events.len();
    assert(events@.take(index as int) =~= events@);
    while index > 0
        invariant
            index <= events@.len(),
            last_server(events@.take(index as int), pid) == last_server(events@, pid),
        decreases index,
    {
        assert(events@.take(index as int).drop_last() =~= events@.take(index - 1));
        index -= 1;
        if let EventKind::ServerHello { stdin } = events[index].kind {
            if events[index].pid == pid {
                return Some(stdin);
            }
        }
    }
    None
}

fn find_chunk(events: &[TransportEvent], pid: u64) -> (r: Option<Option<u64>>)
    ensures
        r == last_chunk(events@, pid),
{
    let mut index: usize = events.len();
    assert(events@.take(index as int) =~= events@);
    while index > 0
        invariant
            index <= events@.len(),
            last_chunk(events@.take(index as int), pid) == last_chunk(events@, pid),
        decreases index,
    {
        assert(events@.take(index as int).drop_last() =~= events@.take(index - 1));
        index -= 1;
        if let EventKind::RawChunk { offset, .. } = events[index].kind {
            if events[index].pid == pid {
                return Some(offset);
            }
        }
    }
    None
}

fn show(events: &[TransportEvent], length: usize, pid: u64) -> (r: Shown)
    ensures
        r == shown_by(events@, length, pid),
{
    let nothing = Shown { resumed: false, suffix: false, end: false };
    let position = match find_server(events, pid) {
        Some(position) => position,
        None => {
            return nothing;
        },
    };
    let stdin_eof = match find_client(events, pid) {
        Some((data, stdin_eof)) => {
            if !data {
                return nothing;
            }
            stdin_eof
        },
        None => {
            return nothing;
        },
    };
    let stdin: u64 = match position {
        Some(stdin) => stdin,
        None => 0,
    };
    let resumed = 0 < stdin && stdin < length as u64;
    let suffix = match find_chunk(events, pid) {
        Some(Some(offset)) => resumed && offset == stdin,
        _ => false,
    };
    let end = match stdin_eof {
        Some(end) => end == length as u64 && stdin < length as u64,
        None => false,
    };
    Shown { resumed, suffix, end }
}

proof fn showing_needs_an_event(events: Seq<TransportEvent>, pid: u64)
    ensures
        last_server(events, pid) is Some ==> exists|i: int|
            0 <= i < events.len() && (#[trigger] events[i]).pid == pid,
    decreases events.len(),
{
    if events.len() > 0 && last_server(events, pid) is Some {
        if events.last().pid == pid && events.last().kind is ServerHello {
            assert(events[events.len() - 1].pid == pid);
        } else {
            showing_needs_an_event(events.drop_last(), pid);
            let i = choose|i: int|
                0 <= i < events.len() - 1 && (#[trigger] events.drop_last()[i]).pid == pid;
            assert(events[i].pid == pid);
        }
    }
}

fn show_all(events: &[TransportEvent], length: usize) -> (r: Shown)
    ensures
        r.resumed == some_resumed(events@, length),
        r.suffix == some_suffix(events@, length),
        r.end == some_end(events@, length),
{
    let mut all = Shown { resumed: false, suffix: false, end: false };
    let mut index: usize = 0;
    while index < events.len()
        invariant
            index <= events@.len(),
            all.resumed ==> some_resumed(events@, length),
            all.suffix ==> some_suffix(events@, length),
            all.end ==> some_end(events@, length),
            forall|i: int|
                0 <= i < index ==> {
                    let one = shown_by(events@, length, (#[trigger] events@[i]).pid);
                    &&& one.resumed ==> all.resumed
                    &&& one.suffix ==> all.suffix
                    &&& one.end ==> all.end
                },
        decreases events@.len() - index,
    {
        let one = show(events, length, events[index].pid);
        assert(one == shown_by(events@, length, events@[index as int].pid));
        all = Shown {
            resumed: all.resumed || one.resumed,
            suffix: all.suffix || one.suffix,
            end: all.end || one.end,
        };
        index += 1;
    }
    proof {
        assert forall|pid: u64|
            {
                let one = #[trigger] shown_by(events@, length, pid);
                &&& one.resumed ==> all.resumed
                &&& one.suffix ==> all.suffix
                &&& one.end ==> all.end
            } by {
            showing_needs_an_event(events@, pid);
        }
    }
    all
}

fn count_data_pids(events: &[TransportEvent]) -> (r: usize)
    ensures
        r == data_pids(events@).len(),
{
    let mut pids: Vec<u64> = Vec::new();
    let mut index: usize = 0;
    assert(events@.take(0) =~= Seq::<TransportEvent>::empty());
    while index < events.len()
        invariant
            index <= events@.len(),
            pids@ == data_pids(events@.take(index as int)),
        decreases events@.len() - index,
    {
        assert(events@.take(index + 1).drop_last() =~= events@.take(index as int));
        if let EventKind::ClientHello { data, .. } = events[index].kind {
            if data {
                let pid: u64 = events[index].pid;
                let mut seen = false;
                let mut other: usize = 0;
                while other < pids.len()
                    invariant
                        other <= pids@.len(),
                        seen == pids@.take(other as int).contains(pid),
                    decreases pids@.len() - other,
                {
                    proof {
                        let before = pids@.take(other as int);
                        let after = pids@.take(other + 1);
                        assert(after =~= before.push(pids@[other as int]));
                        if before.contains(pid) {
                            let i = choose|i: int| 0 <= i < before.len() && before[i] == pid;
                            assert(after[i] == pid);
                        }
                        assert(after[other as int] == pids@[other as int]);
                    }
                    if pids[other] == pid {
                        seen = true;
                    }
                    other += 1;
                }
                assert(pids@.take(other as int) =~= pids@);
                if !seen {
                    pids.push(pid);
                }
            }
        }
        index += 1;
    }
    assert(events@.take(index as int) =~= events@);
    pids.len()
}

/// Accepts what the transports wrote down only if it shows that cut transports
/// were replaced, that the input was resumed where it was left, and that its
/// end was carried on.
pub fn validate_stdin_replay_events(
    events: &[TransportEvent],
    length: usize,
    killed: usize,
) -> (r: Result<(), EventsFault>)
    ensures
        match events_fault(events@, length, killed) {
            None => r is Ok,
            Some(fault) => r == Err::<(), EventsFault>(fault),
        },
{
    if killed < 2 {
        return Err(EventsFault::FewKills { killed });
    }
    let mut index: usize = 0;
    while index < events.len()
        invariant
            index <= events@.len(),
            killed >= 2,
            first_broken(events@, index as int) == first_broken(events@, 0),
        decreases events@.len() - index,
    {
        match events[index].kind {
            EventKind::RawChunk { valid, .. } => {
                if !valid {
                    return Err(EventsFault::InvalidChunk);
                }
            },
            EventKind::RawMismatch => {
                return Err(EventsFault::Mismatch { index });
            },
            _ => {},
        }
        index += 1;
    }
    let data: usize = count_data_pids(events);
    if data <= killed {
        return Err(EventsFault::FewTransports { data, killed });
    }
    let shown = show_all(events, length);
    if !shown.resumed {
        return Err(EventsFault::NoResume);
    }
    if !shown.suffix {
        return Err(EventsFault::NoSuffix);
    }
    if !shown.end {
        return Err(EventsFault::NoEnd);
    }
    Ok(())
}

/// An accepted record shows no broken input, and for every transport that was
/// cut a further one that carried data.
pub proof fn accepted_records_show_a_replay(
    events: Seq<TransportEvent>,
    length: usize,
    killed: usize,
    index: int,
)
    requires
        events_fault(events, length, killed) is None,
        0 <= index < events.len(),
    ensures
        !is_broken(events[index].kind),
        data_pids(events).len() > killed >= 2,
        some_resumed(events, length) && some_suffix(events, length) && some_end(events, length),
{
    unbroken_before_the_first(events, 0, index);
}

proof fn unbroken_before_the_first(events: Seq<TransportEvent>, from: int, index: int)
    requires
        0 <= from <= index < events.len(),
        first_broken(events, from) >= events.len(),
    ensures
        !is_broken(events[index].kind),
    decreases events.len() - from,
{
    if from < index {
        unbroken_before_the_first(events, from + 1, index);
    }
}

/// What a client says when it opens an attachment through a transport.
#[derive(Clone, Debug)]
pub struct ClientOpening {
    pub action: Option<String>,
    pub stdin_start: u64,
    pub stdin_eof: Option<u64>,
}

/// What a client says when it opens an attachment.
pub struct ClientOpeningView {
    pub action: Option<Seq<char>>,
    pub stdin_start: u64,
    pub stdin_eof: Option<u64>,
}

impl View for ClientOpening {
    type V = ClientOpeningView;

    open spec fn view(&self) -> ClientOpeningView {
        ClientOpeningView {
            action: match self.action {
                Some(action) => Some(action@),
                None => None,
            },
            stdin_start: self.stdin_start,
            stdin_eof: self.stdin_eof,
        }
    }
}

/// An opening of which these members were found. Nothing means that it is not
/// JSON.
pub open spec fn client_opening_of(action: JsonView, start: JsonView, end: JsonView) -> Option<
    ClientOpeningView,
> {
    if action is Invalid {
        None
    } else {
        Some(
            ClientOpeningView {
                action: action.string(),
                stdin_start: number_or(start.unsigned(), 0),
                stdin_eof: end.unsigned(),
            },
        )
    }
}

/// Makes an opening of what was found in a line.
pub fn client_opening_found(action: JsonAt, start: &JsonAt, end: &JsonAt) -> (r: Option<
    ClientOpening,
>)
    ensures
        match r {
            Some(opening) => client_opening_of(action@, start@, end@) == Some(opening@),
            None => client_opening_of(action@, start@, end@) is None,
        },
{
    let action = match action {
        JsonAt::Invalid => {
            return None;
        },
        JsonAt::Text(action) => Some(action),
        _ => None,
    };
    let stdin_start: u64 = match start.unsigned() {
        Some(value) => value,
        None => 0,
    };
    Some(ClientOpening { action, stdin_start, stdin_eof: end.unsigned() })
}

/// Reads what a client says when it opens an attachment.
pub fn read_client_opening(line: &[u8]) -> (r: Option<ClientOpening>)
    ensures
        ({
            let found = client_opening_of(
                json::json_lookup(line@, "/action"@),
                json::json_lookup(line@, "/stdin_start"@),
                json::json_lookup(line@, "/stdin_eof"@),
            );
            match r {
                Some(opening) => found == Some(opening@),
                None => found is None,
            }
        }),
{
    client_opening_found(
        json_at(line, "/action"),
        &json_at(line, "/stdin_start"),
        &json_at(line, "/stdin_eof"),
    )
}

/// What a server answers through a transport.
#[derive(Clone, Debug)]
pub enum ServerOpening {
    /// It is not JSON.
    Invalid,
    /// It reports an error.
    Error(String),
    /// It names no position of the input.
    NoStdin,
    Hello {
        stdin: u64,
        stdout: Option<u64>,
        stderr: Option<u64>,
        stdin_eof: bool,
        exit: bool,
    },
}

/// What a server answers.
pub enum ServerOpeningView {
    Invalid,
    Error(Seq<char>),
    NoStdin,
    Hello { stdin: u64, stdout: Option<u64>, stderr: Option<u64>, stdin_eof: bool, exit: bool },
}

impl View for ServerOpening {
    type V = ServerOpeningView;

    open spec fn view(&self) -> ServerOpeningView {
        match *self {
            ServerOpening::Invalid => ServerOpeningView::Invalid,
            ServerOpening::Error(error) => ServerOpeningView::Error(error@),
            ServerOpening::NoStdin => ServerOpeningView::NoStdin,
            ServerOpening::Hello { stdin, stdout, stderr, stdin_eof, exit } => {
                ServerOpeningView::Hello { stdin, stdout, stderr, stdin_eof, exit }
            },
        }
    }
}

/// An answer of which these members were found.
pub open spec fn server_opening_of(
    error: JsonView,
    stdin: JsonView,
    stdout: JsonView,
    stderr: JsonView,
    stdin_eof: JsonView,
    exit: JsonView,
) -> ServerOpeningView {
    match error {
        JsonView::Invalid => ServerOpeningView::Invalid,
        JsonView::Text(error) => ServerOpeningView::Error(error),
        _ => match stdin.unsigned() {
            None => ServerOpeningView::NoStdin,
            Some(stdin) => ServerOpeningView::Hello {
                stdin,
                stdout: stdout.unsigned(),
                stderr: stderr.unsigned(),
                stdin_eof: stdin_eof == JsonView::Bool(true),
                exit: !(exit is Missing),
            },
        },
    }
}

/// Makes an answer of what was found in a line.
pub fn server_opening_found(
    error: JsonAt,
    stdin: &JsonAt,
    stdout: &JsonAt,
    stderr: &JsonAt,
    stdin_eof: &JsonAt,
    exit: &JsonAt,
) -> (r: ServerOpening)
    ensures
        r@ == server_opening_of(error@, stdin@, stdout@, stderr@, stdin_eof@, exit@),
{
    match error {
        JsonAt::Invalid => {
            return ServerOpening::Invalid;
        },
        JsonAt::Text(error) => {
            return ServerOpening::Error(error);
        },
        _ => {},
    }
    let ended = match stdin_eof {
        JsonAt::Bool(value) => *value,
        _ => false,
    };
    let exited = match exit {
        JsonAt::Missing => false,
        _ => true,
    };
    match stdin.unsigned() {
        None => ServerOpening::NoStdin,
        Some(stdin) => ServerOpening::Hello {
            stdin,
            stdout: stdout.unsigned(),
            stderr: stderr.unsigned(),
            stdin_eof: ended,
            exit: exited,
        },
    }
}

/// Reads what a server answers.
pub fn read_server_opening(line: &[u8]) -> (r: ServerOpening)
    ensures
        r@ == server_opening_of(
            json::json_lookup(line@, "/error"@),
            json::json_lookup(line@, "/offsets/stdin"@),
            json::json_lookup(line@, "/offsets/stdout"@),
            json::json_lookup(line@, "/offsets/stderr"@),
            json::json_lookup(line@, "/stdin_eof"@),
            json::json_lookup(line@, "/exit"@),
        ),
{
    server_opening_found(
        json_at(line, "/error"),
        &json_at(line, "/offsets/stdin"),
        &json_at(line, "/offsets/stdout"),
        &json_at(line, "/offsets/stderr"),
        &json_at(line, "/stdin_eof"),
        &json_at(line, "/exit"),
    )
}

/// A line is an event of the kind that it names, with the numbers that stand in it;
/// an opening is for data unless it names an action; and bytes count as valid only
/// if the line says so.
pub proof fn events_are_what_they_name(
    event: JsonAt,
    pid: JsonAt,
    action: JsonAt,
    stdin_eof: JsonAt,
    stdin: JsonAt,
    offset: JsonAt,
    valid: JsonAt,
    r: Option<TransportEvent>,
)
    requires
        call_ensures(
            event_found,
            (&event, &pid, &action, &stdin_eof, &stdin, &offset, &valid),
            r,
        ),
    ensures
        r is None <==> event is Invalid,
        r matches Some(found) ==> {
            &&& pid matches JsonAt::Number { unsigned: Some(number), .. } ==> found.pid == number
            &&& found.kind is RawMismatch ==> (event matches JsonAt::Text(word) && word@
                == "raw_stdin_mismatch"@)
            &&& found.kind matches EventKind::ClientHello { data, stdin_eof: end } ==> {
                &&& event matches JsonAt::Text(word) && word@ == "client_hello"@
                &&& data <==> action is Missing || action is Null
                &&& stdin_eof matches JsonAt::Number { unsigned, .. } ==> end == unsigned
                &&& !(stdin_eof is Number) ==> end is None
            }
            &&& found.kind matches EventKind::ServerHello { stdin: position } ==> {
                &&& event matches JsonAt::Text(word) && word@ == "server_hello"@
                &&& stdin matches JsonAt::Number { unsigned, .. } ==> position == unsigned
                &&& !(stdin is Number) ==> position is None
            }
            &&& found.kind matches EventKind::RawChunk { offset: at, valid: good } ==> {
                &&& event matches JsonAt::Text(word) && word@ == "raw_stdin_chunk"@
                &&& offset matches JsonAt::Number { unsigned, .. } ==> at == unsigned
                &&& !(offset is Number) ==> at is None
                &&& good <==> valid == JsonAt::Bool(true)
            }
            &&& event matches JsonAt::Text(word) ==> {
                &&& word@ == "client_hello"@ ==> found.kind is ClientHello
                &&& word@ == "server_hello"@ ==> found.kind is ServerHello
                &&& word@ == "raw_stdin_chunk"@ ==> found.kind is RawChunk
                &&& word@ == "raw_stdin_mismatch"@ ==> found.kind is RawMismatch
            }
        },
{
    reveal_strlit("client_hello");
    reveal_strlit("server_hello");
    reveal_strlit("raw_stdin_chunk");
    reveal_strlit("raw_stdin_mismatch");
    assert("client_hello"@[0] != "server_hello"@[0]);
    assert("client_hello"@[0] != "raw_stdin_chunk"@[0]);
    assert("client_hello"@[0] != "raw_stdin_mismatch"@[0]);
    assert("server_hello"@[0] != "raw_stdin_chunk"@[0]);
    assert("server_hello"@[0] != "raw_stdin_mismatch"@[0]);
    assert("raw_stdin_chunk"@.len() != "raw_stdin_mismatch"@.len());
}

/// Whether the event at `at` is one of `pid`, and none of the kind comes later from
/// it.
pub open spec fn is_last_of(events: Seq<TransportEvent>, at: int, pid: u64) -> bool {
    &&& 0 <= at < events.len()
    &&& events[at].pid == pid
    &&& forall|later: int|
        at < later < events.len() && (#[trigger] events[later]).pid == pid ==> match events[at].kind {
            EventKind::ClientHello { .. } => !(events[later].kind is ClientHello),
            EventKind::ServerHello { .. } => !(events[later].kind is ServerHello),
            EventKind::RawChunk { .. } => !(events[later].kind is RawChunk),
            _ => true,
        }
}

proof fn last_events_are_there(events: Seq<TransportEvent>, pid: u64)
    ensures
        last_client(events, pid) matches Some(found) ==> exists|at: int| #[trigger]
            is_last_of(events, at, pid) && events[at].kind == (EventKind::ClientHello {
                data: found.0,
                stdin_eof: found.1,
            }),
        last_server(events, pid) matches Some(stdin) ==> exists|at: int| #[trigger]
            is_last_of(events, at, pid) && events[at].kind == (EventKind::ServerHello { stdin }),
        last_chunk(events, pid) matches Some(offset) ==> exists|at: int| #[trigger]
            is_last_of(events, at, pid) && (events[at].kind matches EventKind::RawChunk {
                offset: at_offset,
                ..
            } && at_offset == offset),
    decreases events.len(),
{
    if events.len() > 0 {
        let earlier = events.drop_last();
        let n = earlier.len() as int;
        last_events_are_there(earlier, pid);
        assert(events.last() == events[n]);
        assert forall|i: int| 0 <= i < n implies #[trigger] earlier[i] == events[i] by {}
        if let Some(found) = last_client(events, pid) {
            if events[n].pid == pid && events[n].kind is ClientHello {
                assert(is_last_of(events, n, pid));
            } else {
                let at = choose|at: int| #[trigger]
                    is_last_of(earlier, at, pid) && earlier[at].kind == (EventKind::ClientHello {
                        data: found.0,
                        stdin_eof: found.1,
                    });
                assert forall|later: int|
                    at < later < events.len() && (#[trigger] events[later]).pid == pid implies !(
                events[later].kind is ClientHello) by {
                    if later < n {
                        assert(earlier[later].pid == pid);
                    }
                }
                assert(is_last_of(events, at, pid));
            }
        }
        if let Some(stdin) = last_server(events, pid) {
            if events[n].pid == pid && events[n].kind is ServerHello {
                assert(is_last_of(events, n, pid));
            } else {
                let at = choose|at: int| #[trigger]
                    is_last_of(earlier, at, pid) && earlier[at].kind == (EventKind::ServerHello {
                        stdin,
                    });
                assert forall|later: int|
                    at < later < events.len() && (#[trigger] events[later]).pid == pid implies !(
                events[later].kind is ServerHello) by {
                    if later < n {
                        assert(earlier[later].pid == pid);
                    }
                }
                assert(is_last_of(events, at, pid));
            }
        }
        if let Some(offset) = last_chunk(events, pid) {
            if events[n].pid == pid && events[n].kind is RawChunk {
                assert(is_last_of(events, n, pid));
            } else {
                let at = choose|at: int| #[trigger]
                    is_last_of(earlier, at, pid) && (earlier[at].kind matches EventKind::RawChunk {
                        offset: at_offset,
                        ..
                    } && at_offset == offset);
                assert forall|later: int|
                    at < later < events.len() && (#[trigger] events[later]).pid == pid implies !(
                events[later].kind is RawChunk) by {
                    if later < n {
                        assert(earlier[later].pid == pid);
                    }
                }
                assert(is_last_of(events, at, pid));
            }
        }
    }
}

proof fn last_events_are_found(events: Seq<TransportEvent>, at: int)
    requires
        is_last_of(events, at, events[at].pid),
    ensures
        events[at].kind matches EventKind::ClientHello { data, stdin_eof } ==> last_client(
            events,
            events[at].pid,
        ) == Some((data, stdin_eof)),
        events[at].kind matches EventKind::ServerHello { stdin } ==> last_server(
            events,
            events[at].pid,
        ) == Some(stdin),
        events[at].kind matches EventKind::RawChunk { offset, .. } ==> last_chunk(
            events,
            events[at].pid,
        ) == Some(offset),
    decreases events.len(),
{
    let n = events.len() - 1;
    if at < n {
        let earlier = events.drop_last();
        assert forall|i: int| 0 <= i < n implies #[trigger] earlier[i] == events[i] by {}
        assert(events.last() == events[n]);
        assert(is_last_of(earlier, at, earlier[at].pid)) by {
            assert forall|later: int|
                at < later < earlier.len() && (#[trigger] earlier[later]).pid
                    == events[at].pid implies match earlier[at].kind {
                EventKind::ClientHello { .. } => !(earlier[later].kind is ClientHello),
                EventKind::ServerHello { .. } => !(earlier[later].kind is ServerHello),
                EventKind::RawChunk { .. } => !(earlier[later].kind is RawChunk),
                _ => true,
            } by {
                assert(events[later].pid == events[at].pid);
            }
        }
        last_events_are_found(earlier, at);
    }
}

proof fn data_processes_are_counted_once(events: Seq<TransportEvent>)
    ensures
        data_pids(events).no_duplicates(),
        forall|pid: u64| #[trigger]
            data_pids(events).contains(pid) <==> exists|i: int|
                0 <= i < events.len() && (#[trigger] events[i]).pid == pid && (
                events[i].kind matches EventKind::ClientHello { data, .. } && data),
    decreases events.len(),
{
    if events.len() > 0 {
        let earlier = events.drop_last();
        let n = earlier.len() as int;
        data_processes_are_counted_once(earlier);
        assert(events.last() == events[n]);
        let before = data_pids(earlier);
        let after = data_pids(events);
        let opens = events[n].kind matches EventKind::ClientHello { data, .. } && data;
        assert forall|pid: u64| #[trigger]
            after.contains(pid) <==> before.contains(pid) || (opens && pid == events[n].pid) by {
            if opens && !before.contains(events[n].pid) {
                assert(after =~= before.push(events[n].pid));
                if before.contains(pid) {
                    let i = choose|i: int| 0 <= i < before.len() && before[i] == pid;
                    assert(after[i] == pid);
                }
                assert(after[before.len() as int] == events[n].pid);
            }
        }
        assert forall|pid: u64| #[trigger]
            after.contains(pid) <==> exists|i: int|
                0 <= i < events.len() && (#[trigger] events[i]).pid == pid && (
                events[i].kind matches EventKind::ClientHello { data, .. } && data) by {
            if before.contains(pid) {
                let i = choose|i: int|
                    0 <= i < earlier.len() && (#[trigger] earlier[i]).pid == pid && (
                    earlier[i].kind matches EventKind::ClientHello { data, .. } && data);
                assert(events[i] == earlier[i]);
            }
            if opens && pid == events[n].pid {
                assert(events[n].pid == pid);
            }
            if exists|i: int|
                0 <= i < events.len() && (#[trigger] events[i]).pid == pid && (
                events[i].kind matches EventKind::ClientHello { data, .. } && data) {
                let i = choose|i: int|
                    0 <= i < events.len() && (#[trigger] events[i]).pid == pid && (
                    events[i].kind matches EventKind::ClientHello { data, .. } && data);
                if i < n {
                    assert(earlier[i] == events[i]);
                }
            }
        }
    }
}

/// A record that is accepted shows all of it: no broken input anywhere; more
/// processes that opened an attachment for data than were cut, of which there were
/// at least two; a process that the server told a proper prefix of the input and
/// through which input then began exactly there; and one that declared the whole
/// length to a server that lacked some of it.
pub proof fn accepted_records_hold_all_of_it(
    events: &[TransportEvent],
    length: usize,
    killed: usize,
    r: Result<(), EventsFault>,
) -> (shown: (Seq<u64>, int, int, int, int))
    requires
        call_ensures(validate_stdin_replay_events, (events, length, killed), r),
        r is Ok,
    ensures
        killed >= 2,
        forall|i: int|
            0 <= i < events@.len() ==> !((#[trigger] events@[i]).kind is RawMismatch) && (
            events@[i].kind matches EventKind::RawChunk { valid, .. } ==> valid),
        shown.0.no_duplicates(),
        shown.0.len() > killed,
        forall|j: int|
            0 <= j < shown.0.len() ==> exists|i: int|
                0 <= i < events@.len() && (#[trigger] events@[i]).pid == #[trigger] shown.0[j] && (
                events@[i].kind matches EventKind::ClientHello { data, .. } && data),
        ({
            let (_, told, carried, ended, short) = shown;
            &&& 0 <= told < events@.len() && 0 <= carried < events@.len()
            &&& events@[told].pid == events@[carried].pid
            &&& events@[told].kind matches EventKind::ServerHello { stdin: Some(position) }
            &&& 0 < position < length
            &&& events@[carried].kind matches EventKind::RawChunk { offset, .. }
            &&& offset == Some(position)
            &&& 0 <= ended < events@.len() && 0 <= short < events@.len()
            &&& events@[ended].pid == events@[short].pid
            &&& events@[ended].kind matches EventKind::ClientHello { data, stdin_eof }
            &&& data && stdin_eof == Some(length as u64)
            &&& events@[short].kind matches EventKind::ServerHello { stdin: reported }
            &&& reported is Some ==> reported->0 < length
        }),
{
    data_processes_are_counted_once(events@);
    let pids = data_pids(events@);
    assert forall|i: int| 0 <= i < events@.len() implies !((#[trigger] events@[i]).kind
        is RawMismatch) && (events@[i].kind matches EventKind::RawChunk { valid, .. } ==> valid) by {
        accepted_records_show_a_replay(events@, length, killed, i);
    }
    assert forall|j: int| 0 <= j < pids.len() implies exists|i: int|
        0 <= i < events@.len() && (#[trigger] events@[i]).pid == #[trigger] pids[j] && (
        events@[i].kind matches EventKind::ClientHello { data, .. } && data) by {
        assert(pids.contains(pids[j]));
    }
    assert(some_suffix(events@, length) && some_end(events@, length));
    let one = choose|pid: u64| (#[trigger] shown_by(events@, length, pid)).suffix;
    let two = choose|pid: u64| (#[trigger] shown_by(events@, length, pid)).end;
    last_events_are_there(events@, one);
    last_events_are_there(events@, two);
    let position = last_server(events@, one)->0;
    let told = choose|at: int| #[trigger]
        is_last_of(events@, at, one) && events@[at].kind == (EventKind::ServerHello {
            stdin: position,
        });
    let carried = choose|at: int| #[trigger]
        is_last_of(events@, at, one) && (events@[at].kind matches EventKind::RawChunk {
            offset: at_offset,
            ..
        } && at_offset == position);
    let opened = last_client(events@, two)->0;
    let ended = choose|at: int| #[trigger]
        is_last_of(events@, at, two) && events@[at].kind == (EventKind::ClientHello {
            data: opened.0,
            stdin_eof: opened.1,
        });
    let reported = last_server(events@, two)->0;
    let short = choose|at: int| #[trigger]
        is_last_of(events@, at, two) && events@[at].kind == (EventKind::ServerHello {
            stdin: reported,
        });
    (pids, told, carried, ended, short)
}

proof fn nothing_is_broken_from(events: Seq<TransportEvent>, from: int)
    requires
        0 <= from <= events.len(),
        forall|i: int| 0 <= i < events.len() ==> !is_broken((#[trigger] events[i]).kind),
    ensures
        first_broken(events, from) >= events.len(),
    decreases events.len() - from,
{
    if from < events.len() {
        nothing_is_broken_from(events, from + 1);
    }
}

/// A record that shows all of it is accepted: nothing broken, two cuts and more
/// processes than cuts, and one process whose last opening was for data and named
/// the whole length, whose server last told a proper prefix, and through which
/// input last began exactly there.
pub proof fn complete_records_are_accepted(
    events: &[TransportEvent],
    length: usize,
    killed: usize,
    openings: Seq<int>,
    opened: int,
    told: int,
    carried: int,
    position: u64,
    valid: bool,
    r: Result<(), EventsFault>,
)
    requires
        call_ensures(validate_stdin_replay_events, (events, length, killed), r),
        killed >= 2,
        forall|i: int|
            0 <= i < events@.len() ==> !((#[trigger] events@[i]).kind is RawMismatch) && (
            events@[i].kind matches EventKind::RawChunk { valid, .. } ==> valid),
        openings.len() > killed,
        forall|j: int|
            0 <= j < openings.len() ==> 0 <= (#[trigger] openings[j]) < events@.len() && (
            events@[openings[j]].kind matches EventKind::ClientHello { data, .. } && data),
        forall|j: int, k: int|
            0 <= j < k < openings.len() ==> events@[#[trigger] openings[j]].pid
                != events@[#[trigger] openings[k]].pid,
        0 < position < length,
        0 <= opened < events@.len() && 0 <= told < events@.len() && 0 <= carried < events@.len(),
        is_last_of(events@, opened, events@[opened].pid),
        is_last_of(events@, told, events@[opened].pid),
        is_last_of(events@, carried, events@[opened].pid),
        events@[opened].kind == (EventKind::ClientHello {
            data: true,
            stdin_eof: Some(length as u64),
        }),
        events@[told].kind == (EventKind::ServerHello { stdin: Some(position) }),
        events@[carried].kind == (EventKind::RawChunk { offset: Some(position), valid }),
    ensures
        r is Ok,
{
    let pid = events@[opened].pid;
    assert forall|i: int| 0 <= i < events@.len() implies !is_broken((#[trigger] events@[i]).kind) by {}
    nothing_is_broken_from(events@, 0);
    last_events_are_found(events@, opened);
    last_events_are_found(events@, told);
    last_events_are_found(events@, carried);
    let shown = shown_by(events@, length, pid);
    assert(shown.resumed && shown.suffix && shown.end);
    data_processes_are_counted_once(events@);
    let pids = data_pids(events@);
    let chosen = openings.map_values(|i: int| events@[i].pid);
    assert(chosen.no_duplicates()) by {
        assert forall|j: int, k: int|
            0 <= j < chosen.len() && 0 <= k < chosen.len() && j != k implies chosen[j]
            != chosen[k] by {
            if j < k {
                assert(events@[openings[j]].pid != events@[openings[k]].pid);
            } else {
                assert(events@[openings[k]].pid != events@[openings[j]].pid);
            }
        }
    }
    assert forall|j: int| 0 <= j < chosen.len() implies pids.contains(#[trigger] chosen[j]) by {
        let at = openings[j];
        assert(events@[at].pid == chosen[j]);
    }
    chosen.unique_seq_to_set();
    pids.unique_seq_to_set();
    assert(chosen.to_set().subset_of(pids.to_set())) by {
        assert forall|p: u64| #[trigger]
            chosen.to_set().contains(p) implies pids.to_set().contains(p) by {
            let j = choose|j: int| 0 <= j < chosen.len() && chosen[j] == p;
            assert(pids.contains(chosen[j]));
        }
    }
    vstd::set_lib::lemma_len_subset(chosen.to_set(), pids.to_set());
    assert(pids.len() >= chosen.len());
    assert(some_resumed(events@, length));
    assert(some_suffix(events@, length));
    assert(some_end(events@, length));
}

/// An opening says what stands in its line: its action where it is text, and its
/// numbers; what does not stand there counts as nothing, and as zero for the start.
pub proof fn client_openings_are_read_as_they_stand(
    action: JsonAt,
    start: JsonAt,
    end: JsonAt,
    r: Option<ClientOpening>,
)
    requires
        call_ensures(client_opening_found, (action, &start, &end), r),
    ensures
        r is None <==> action is Invalid,
        r matches Some(opening) ==> {
            &&& action matches JsonAt::Text(word) ==> (opening.action matches Some(told) && told@
                == word@)
            &&& !(action is Text) ==> opening.action is None
            &&& start matches JsonAt::Number { unsigned: Some(number), .. } ==> opening.stdin_start
                == number
            &&& !(start matches JsonAt::Number { unsigned: Some(_), .. }) ==> opening.stdin_start
                == 0
            &&& end matches JsonAt::Number { unsigned, .. } ==> opening.stdin_eof == unsigned
            &&& !(end is Number) ==> opening.stdin_eof is None
        },
{
    assert(match r {
        Some(opening) => client_opening_of(action@, start@, end@) == Some(opening@),
        None => client_opening_of(action@, start@, end@) is None,
    });
}

/// An answer is an error exactly if it names one, and otherwise tells the positions
/// that stand in it, whether input has ended, and whether there is an exit.
pub proof fn server_openings_are_read_as_they_stand(
    error: JsonAt,
    stdin: JsonAt,
    stdout: JsonAt,
    stderr: JsonAt,
    stdin_eof: JsonAt,
    exit: JsonAt,
    r: ServerOpening,
)
    requires
        call_ensures(
            server_opening_found,
            (error, &stdin, &stdout, &stderr, &stdin_eof, &exit),
            r,
        ),
    ensures
        r is Invalid <==> error is Invalid,
        r is Error <==> error is Text,
        error matches JsonAt::Text(word) ==> (r matches ServerOpening::Error(told) && told@
            == word@),
        r matches ServerOpening::Hello {
            stdin: position,
            stdout: out,
            stderr: err,
            stdin_eof: ended,
            exit: exited,
        } ==> {
            &&& stdin matches JsonAt::Number { unsigned, .. } && unsigned == Some(position)
            &&& stdout matches JsonAt::Number { unsigned, .. } ==> out == unsigned
            &&& stderr matches JsonAt::Number { unsigned, .. } ==> err == unsigned
            &&& ended <==> stdin_eof == JsonAt::Bool(true)
            &&& exited <==> !(exit is Missing)
        },
        !(error is Invalid) && !(error is Text) && (stdin matches JsonAt::Number { unsigned, .. }
            && unsigned is Some) ==> r is Hello,
{
    assert(r@ == server_opening_of(error@, stdin@, stdout@, stderr@, stdin_eof@, exit@));
}

/// The lines of a transport are read at their members.
pub proof fn lines_are_read_at_their_members(
    line: &[u8],
    event: Option<TransportEvent>,
    client: Option<ClientOpening>,
    server: ServerOpening,
)
    requires
        call_ensures(read_event, (line,), event),
        call_ensures(read_client_opening, (line,), client),
        call_ensures(read_server_opening, (line,), server),
    ensures
        ({
            let word = json::json_lookup(line@, "/event"@);
            let action = json::json_lookup(line@, "/action"@);
            &&& event is None <==> word is Invalid
            &&& event matches Some(found) ==> {
                &&& found.kind matches EventKind::ServerHello { stdin } ==> stdin
                    == json::json_lookup(line@, "/stdin"@).unsigned()
                &&& found.kind matches EventKind::ClientHello { data, stdin_eof } ==> stdin_eof
                    == json::json_lookup(line@, "/stdin_eof"@).unsigned() && (data <==> action
                    is Missing || action is Null)
                &&& found.kind matches EventKind::RawChunk { offset, valid } ==> offset
                    == json::json_lookup(line@, "/offset"@).unsigned() && (valid
                    <==> json::json_lookup(line@, "/valid"@) == JsonView::Bool(true))
            }
            &&& client is None <==> action is Invalid
            &&& client matches Some(opening) ==> opening.stdin_eof == json::json_lookup(
                line@,
                "/stdin_eof"@,
            ).unsigned()
            &&& server matches ServerOpening::Hello { stdin, stdout, stderr, .. } ==> {
                &&& json::json_lookup(line@, "/offsets/stdin"@).unsigned() == Some(stdin)
                &&& json::json_lookup(line@, "/offsets/stdout"@).unsigned() == stdout
                &&& json::json_lookup(line@, "/offsets/stderr"@).unsigned() == stderr
            }
        }),
{
    assert(match client {
        Some(opening) => client_opening_of(
            json::json_lookup(line@, "/action"@),
            json::json_lookup(line@, "/stdin_start"@),
            json::json_lookup(line@, "/stdin_eof"@),
        ) == Some(opening@),
        None => client_opening_of(
            json::json_lookup(line@, "/action"@),
            json::json_lookup(line@, "/stdin_start"@),
            json::json_lookup(line@, "/stdin_eof"@),
        ) is None,
    });
    assert(server@ is Hello <==> server is Hello);
}

/// Diagnostics show the numbers and the event that they are about.
pub proof fn event_faults_are_shown(fault: EventsFault, event: &str, r: String)
    requires
        call_ensures(EventsFault::message, (&fault, event), r),
    ensures
        fault matches EventsFault::FewKills { killed } ==> r@ == "stdin replay killed only "@
            + text::decimal(killed as nat) + " transports"@,
        fault is Mismatch ==> r@ == "transport logged a raw stdin mismatch: "@ + event@,
        fault matches EventsFault::FewTransports { data, killed } ==> r@
            == "stdin replay did not restart data transports repeatedly: data_pids="@
            + text::decimal(data as nat) + " killed="@ + text::decimal(killed as nat),
        fault is InvalidChunk ==> r@
            == "transport saw raw stdin bytes that did not match the framed input"@,
        fault is NoResume ==> r@
            == "no resumed inner broker hello reported a nonzero proper stdin prefix"@,
        fault is NoSuffix ==> r@
            == "no replayed stdin chunk started at the broker-reported suffix offset"@,
        fault is NoEnd ==> r@
            == "no reconnect carried finite-producer EOF to a broker missing stdin suffix"@,
{
}

/// A record is refused for what it lacks, in order: that input only went on at a
/// wrong place is said only where some server told a proper prefix.
pub proof fn records_are_refused_for_what_they_lack(
    events: &[TransportEvent],
    length: usize,
    killed: usize,
    r: Result<(), EventsFault>,
) -> (told: int)
    requires
        call_ensures(validate_stdin_replay_events, (events, length, killed), r),
    ensures
        killed < 2 <==> (r is Err && r->Err_0 is FewKills),
        r matches Err(EventsFault::FewKills { killed: shown }) ==> shown == killed,
        r is Err && (r->Err_0 is NoSuffix || r->Err_0 is NoEnd) ==> {
            &&& 0 <= told < events@.len()
            &&& events@[told].kind matches EventKind::ServerHello { stdin: Some(position) }
            &&& 0 < position < length
        },
{
    if r is Err && (r->Err_0 is NoSuffix || r->Err_0 is NoEnd) {
        assert(some_resumed(events@, length));
        let pid = choose|pid: u64| (#[trigger] shown_by(events@, length, pid)).resumed;
        last_events_are_there(events@, pid);
        let position = last_server(events@, pid)->0;
        let told = choose|at: int| #[trigger]
            is_last_of(events@, at, pid) && events@[at].kind == (EventKind::ServerHello {
                stdin: position,
            });
        told
    } else {
        0
    }
}

} // verus!
