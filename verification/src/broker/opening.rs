//! Opening an attachment: which sessions accept which form, and what the broker
//! answers.
use vstd::prelude::*;

use crate::attachment::AttachmentLease;
use crate::broker::{Broker, Session, StdinError};
use crate::group_pidfd::GroupSignal;
use crate::output::{ATTACHMENT, CAPABILITY};
use crate::protocol::{
    AllOffsets, BrokerRequest, OutputOffsets, ServerHello, SessionFact, FRAMED_ATTACHMENT_V1,
    GROUP_PIDFD_CAPABILITY,
};
use crate::text;

verus! {

/// The form of an attachment.
#[derive(Clone, Copy, Debug, PartialEq, Eq, Structural)]
pub enum AttachKind {
    /// Plain streams behind a proxy.
    Raw,
    /// Typed frames.
    Framed,
    /// Typed frames with output facts.
    Bounded,
}

/// Why a request is refused.
#[derive(Clone, Copy, Debug, PartialEq, Eq, Structural)]
pub enum OpeningError {
    /// Another attachment holds the session.
    Attached,
    /// More output was asked for than there is.
    OffsetAhead,
    /// Another attachment took the session meanwhile.
    Superseded,
    /// The opening contradicts retained input.
    Stdin(StdinError),
    /// A bounded session was asked in a form that knows no output facts.
    BoundedOnly,
    /// Output facts were asked of a session without finite output.
    NotBounded,
    /// A framed attachment needs retained output.
    FramedNeedsBuffer,
    /// Group control was asked of a session that has none.
    NotHardened,
    /// Group control was never verified.
    ControlUnavailable,
}

impl OpeningError {
    /// The diagnostic for the error.
    pub open spec fn text(self) -> Seq<char> {
        match self {
            OpeningError::Attached => "session already has an attached client"@,
            OpeningError::OffsetAhead => "requested output offset is ahead of the stream"@,
            OpeningError::Superseded => "attachment superseded"@,
            OpeningError::Stdin(error) => error.text(),
            OpeningError::BoundedOnly => {
                "session output is bounded; use an output-aware attachment or cancellation"@
            },
            OpeningError::NotBounded => "session output is not bounded"@,
            OpeningError::FramedNeedsBuffer => "framed attachment requires a buffered session"@,
            OpeningError::NotHardened => "session did not opt in to group pidfd cancellation"@,
            OpeningError::ControlUnavailable => {
                "group control is unavailable; bounded attachment refused; session retained"@
            },
        }
    }

    /// The machine-readable code of the error, where it has one.
    pub open spec fn code_text(self) -> Option<Seq<char>> {
        match self {
            OpeningError::Attached => Some("session_attached"@),
            _ => None,
        }
    }

    pub fn message(&self) -> (r: String)
        ensures
            r@ == self.text(),
    {
        match self {
            OpeningError::Attached => "session already has an attached client".to_owned(),
            OpeningError::OffsetAhead => "requested output offset is ahead of the stream".to_owned(),
            OpeningError::Superseded => "attachment superseded".to_owned(),
            OpeningError::Stdin(error) => error.message(),
            OpeningError::BoundedOnly => {
                "session output is bounded; use an output-aware attachment or cancellation".to_owned()
            },
            OpeningError::NotBounded => "session output is not bounded".to_owned(),
            OpeningError::FramedNeedsBuffer => {
                "framed attachment requires a buffered session".to_owned()
            },
            OpeningError::NotHardened => {
                "session did not opt in to group pidfd cancellation".to_owned()
            },
            OpeningError::ControlUnavailable => {
                "group control is unavailable; bounded attachment refused; session retained".to_owned()
            },
        }
    }

    pub fn code(&self) -> (r: Option<String>)
        ensures
            match r {
                Some(code) => self.code_text() == Some(code@),
                None => self.code_text() is None,
            },
    {
        match self {
            OpeningError::Attached => Some("session_attached".to_owned()),
            _ => None,
        }
    }
}

/// What a broker does with a request.
#[derive(Clone, Copy, Debug, PartialEq, Eq, Structural)]
pub enum Route {
    Attach {
        kind: AttachKind,
        offsets: OutputOffsets,
        stdin_start: u64,
        stdin_eof: Option<u64>,
        force: bool,
    },
    DeclareEof { offset: u64 },
    Pid,
    /// Signal the group by its number.
    CancelByNumber,
    /// Begin or join the broker's own operation.
    CancelHardened,
    Observe,
    Refuse(OpeningError),
}

/// The capabilities that a session names.
pub open spec fn session_capabilities(verified: bool, bounded: bool) -> Seq<Seq<char>> {
    if verified && bounded {
        seq![GROUP_PIDFD_CAPABILITY@, CAPABILITY@]
    } else if verified {
        seq![GROUP_PIDFD_CAPABILITY@]
    } else {
        Seq::empty()
    }
}

impl Session {
    /// Whether an opening asks for output that does not exist.
    pub open spec fn is_ahead(self, offsets: OutputOffsets) -> bool {
        offsets.stdout > self.meta.stdout_end || offsets.stderr > self.meta.stderr_end
    }

    /// The positions that the answer gives: without retained output the present
    /// ends, otherwise what was asked for.
    pub open spec fn opening_offsets(self, offsets: OutputOffsets) -> AllOffsets {
        AllOffsets {
            stdin: self.meta.stdin_position,
            stdout: if self.nobuffer {
                self.meta.stdout_end
            } else {
                offsets.stdout
            },
            stderr: if self.nobuffer {
                self.meta.stderr_end
            } else {
                offsets.stderr
            },
        }
    }
}

impl<H: GroupSignal> Broker<H> {
    /// Why a form of attachment is refused before it can displace anybody, if
    /// it is.
    pub open spec fn form_refusal(self, kind: AttachKind) -> Option<OpeningError> {
        if self.is_bounded() {
            if kind != AttachKind::Bounded {
                Some(OpeningError::BoundedOnly)
            } else if !self.control().verified {
                Some(OpeningError::ControlUnavailable)
            } else {
                None
            }
        } else if kind == AttachKind::Bounded {
            Some(OpeningError::NotBounded)
        } else if kind == AttachKind::Framed && self.session.nobuffer {
            Some(OpeningError::FramedNeedsBuffer)
        } else {
            None
        }
    }

    /// What the broker does with a request.
    pub open spec fn routed(self, request: BrokerRequest) -> Route {
        match request {
            BrokerRequest::Attach { offsets, stdin_start, stdin_eof, force } => self.routed_attach(
                AttachKind::Raw,
                offsets,
                stdin_start,
                stdin_eof,
                force,
            ),
            BrokerRequest::AttachFramedV1 { offsets, stdin_start, stdin_eof, force } => {
                self.routed_attach(AttachKind::Framed, offsets, stdin_start, stdin_eof, force)
            },
            BrokerRequest::AttachOutputV1 { offsets, stdin_start, stdin_eof, force } => {
                self.routed_attach(AttachKind::Bounded, offsets, stdin_start, stdin_eof, force)
            },
            BrokerRequest::StdinEof { offset } => if self.is_bounded() {
                Route::Refuse(OpeningError::BoundedOnly)
            } else {
                Route::DeclareEof { offset }
            },
            BrokerRequest::Pid => Route::Pid,
            BrokerRequest::Cancel => if self.is_bounded() {
                Route::Refuse(OpeningError::BoundedOnly)
            } else if self.cancellation is Some {
                Route::CancelHardened
            } else {
                Route::CancelByNumber
            },
            BrokerRequest::CancelGroupPidfd => if self.is_bounded() {
                Route::Refuse(OpeningError::BoundedOnly)
            } else if self.cancellation is Some {
                Route::CancelHardened
            } else {
                Route::Refuse(OpeningError::NotHardened)
            },
            BrokerRequest::CancelOutputV1 => if self.is_bounded() {
                Route::CancelHardened
            } else {
                Route::Refuse(OpeningError::NotBounded)
            },
            BrokerRequest::Session => Route::Observe,
        }
    }

    pub open spec fn routed_attach(
        self,
        kind: AttachKind,
        offsets: OutputOffsets,
        stdin_start: u64,
        stdin_eof: Option<u64>,
        force: bool,
    ) -> Route {
        match self.form_refusal(kind) {
            Some(error) => Route::Refuse(error),
            None => Route::Attach { kind, offsets, stdin_start, stdin_eof, force },
        }
    }

    /// Whether `fact` is what the session says about its control.
    pub open spec fn is_session_fact(self, fact: Option<SessionFact>) -> bool {
        match fact {
            None => self.cancellation is None,
            Some(told) => {
                &&& self.cancellation is Some
                &&& text::texts(told.capabilities@) == session_capabilities(
                    self.control().verified,
                    self.is_bounded(),
                )
                &&& told.workload_started
                &&& told.cancel_state@ == self.control().state_name()
                &&& match told.cancel_error {
                    Some(error) => self.control().result is Some && self.control().result->0 is Err
                        && self.control().result->0->Err_0 == error@,
                    None => !(self.control().result is Some && self.control().result->0 is Err),
                }
            },
        }
    }

    /// Whether `hello` is the answer to an accepted opening.
    pub open spec fn is_opening(
        self,
        hello: ServerHello,
        kind: AttachKind,
        offsets: OutputOffsets,
    ) -> bool {
        let meta = self.session.meta;
        &&& match kind {
            AttachKind::Raw => hello.attachment is None && hello.stdin_eof_at is None,
            AttachKind::Framed => hello.attachment is Some && hello.attachment->0@
                == FRAMED_ATTACHMENT_V1@ && hello.stdin_eof_at == meta.stdin_eof_at,
            AttachKind::Bounded => hello.attachment is Some && hello.attachment->0@ == ATTACHMENT@
                && hello.stdin_eof_at == meta.stdin_eof_at,
        }
        &&& self.is_session_fact(hello.session)
        &&& hello.offsets == self.session.opening_offsets(offsets)
        &&& hello.nobuffer == self.session.nobuffer
        &&& hello.stdin_eof == meta.stdin_eof
        &&& if kind == AttachKind::Bounded {
            &&& hello.stdout_eof is None
            &&& hello.stderr_eof is None
            &&& hello.exit is None
            &&& hello.output == (if self.is_bounded() {
                Some(self.policy().told(meta.status, self.control()))
            } else {
                None
            })
        } else {
            &&& hello.stdout_eof == (if meta.stdout_closed {
                Some(meta.stdout_end)
            } else {
                None
            })
            &&& hello.stderr_eof == (if meta.stderr_closed {
                Some(meta.stderr_end)
            } else {
                None
            })
            &&& hello.exit == meta.told_exit()
            &&& hello.output is None
        }
    }

    fn check_form(&self, kind: AttachKind) -> (r: Option<OpeningError>)
        requires
            self.valid(),
        ensures
            r == self.form_refusal(kind),
    {
        if self.session.meta.output.is_some() {
            let verified = match &self.cancellation {
                Some(cancellation) => cancellation.verified,
                None => false,
            };
            if kind != AttachKind::Bounded {
                Some(OpeningError::BoundedOnly)
            } else if !verified {
                Some(OpeningError::ControlUnavailable)
            } else {
                None
            }
        } else if kind == AttachKind::Bounded {
            Some(OpeningError::NotBounded)
        } else if kind == AttachKind::Framed && self.session.nobuffer {
            Some(OpeningError::FramedNeedsBuffer)
        } else {
            None
        }
    }

    fn route_attach(
        &self,
        kind: AttachKind,
        offsets: OutputOffsets,
        stdin_start: u64,
        stdin_eof: Option<u64>,
        force: bool,
    ) -> (r: Route)
        requires
            self.valid(),
        ensures
            r == self.routed_attach(kind, offsets, stdin_start, stdin_eof, force),
    {
        match self.check_form(kind) {
            Some(error) => Route::Refuse(error),
            None => Route::Attach { kind, offsets, stdin_start, stdin_eof, force },
        }
    }

    /// Decides what becomes of a request, before it has any effect.
    pub fn route(&self, request: BrokerRequest) -> (r: Route)
        requires
            self.valid(),
        ensures
            r == self.routed(request),
    {
        let bounded = self.session.meta.output.is_some();
        match request {
            BrokerRequest::Attach { offsets, stdin_start, stdin_eof, force } => self.route_attach(
                AttachKind::Raw,
                offsets,
                stdin_start,
                stdin_eof,
                force,
            ),
            BrokerRequest::AttachFramedV1 { offsets, stdin_start, stdin_eof, force } => {
                self.route_attach(AttachKind::Framed, offsets, stdin_start, stdin_eof, force)
            },
            BrokerRequest::AttachOutputV1 { offsets, stdin_start, stdin_eof, force } => {
                self.route_attach(AttachKind::Bounded, offsets, stdin_start, stdin_eof, force)
            },
            BrokerRequest::StdinEof { offset } => {
                if bounded {
                    Route::Refuse(OpeningError::BoundedOnly)
                } else {
                    Route::DeclareEof { offset }
                }
            },
            BrokerRequest::Pid => Route::Pid,
            BrokerRequest::Cancel => {
                if bounded {
                    Route::Refuse(OpeningError::BoundedOnly)
                } else if self.cancellation.is_some() {
                    Route::CancelHardened
                } else {
                    Route::CancelByNumber
                }
            },
            BrokerRequest::CancelGroupPidfd => {
                if bounded {
                    Route::Refuse(OpeningError::BoundedOnly)
                } else if self.cancellation.is_some() {
                    Route::CancelHardened
                } else {
                    Route::Refuse(OpeningError::NotHardened)
                }
            },
            BrokerRequest::CancelOutputV1 => {
                if bounded {
                    Route::CancelHardened
                } else {
                    Route::Refuse(OpeningError::NotBounded)
                }
            },
            BrokerRequest::Session => Route::Observe,
        }
    }

    /// What the session says about its control, if it opted in to any.
    pub fn session_fact(&self) -> (r: Option<SessionFact>)
        ensures
            self.is_session_fact(r),
    {
        match &self.cancellation {
            None => None,
            Some(cancellation) => {
                let mut fact = cancellation.fact();
                if cancellation.verified && self.session.meta.output.is_some() {
                    fact.capabilities.push(CAPABILITY.to_owned());
                }
                assert(text::texts(fact.capabilities@) =~= session_capabilities(
                    self.control().verified,
                    self.is_bounded(),
                ));
                Some(fact)
            },
        }
    }

    /// Whether this is `before` with another attachment slot and other input
    /// state.
    pub open spec fn only_session(self, before: Broker<H>, session: Session) -> bool {
        &&& self.session == session
        &&& self.cancellation == before.cancellation
        &&& self.failure == before.failure
        &&& self.pins == before.pins
        &&& self.grace == before.grace
        &&& self.settlement == before.settlement
        &&& self.connections == before.connections
    }

    /// The first half of an opening: the form is checked before anybody is
    /// displaced, then the slot is taken, then the wanted positions are checked.
    /// An opening that fails after it took the slot leaves it free.
    pub fn begin_attach(&mut self, kind: AttachKind, offsets: OutputOffsets, force: bool) -> (r:
        Result<AttachmentLease, OpeningError>)
        requires
            old(self).valid(),
            old(self).session.attachment.next_generation < u64::MAX,
        ensures
            final(self).valid(),
            final(self).only_session(*old(self), final(self).session),
            ({
                let before = old(self).session;
                let installed = Session { attachment: before.attachment.installed(), ..before };
                match r {
                    Ok(lease) => {
                        &&& old(self).form_refusal(kind) is None
                        &&& before.attachment.free(force)
                        &&& !before.is_ahead(offsets)
                        &&& lease.generation == before.attachment.next_generation
                        &&& lease.displaced == before.attachment.current
                        &&& final(self).session == installed
                    },
                    Err(error) => if old(self).form_refusal(kind) is Some {
                        &&& old(self).form_refusal(kind) == Some(error)
                        &&& final(self).session == before
                    } else if !before.attachment.free(force) {
                        &&& error == OpeningError::Attached
                        &&& final(self).session == before
                    } else {
                        &&& before.is_ahead(offsets)
                        &&& error == OpeningError::OffsetAhead
                        &&& final(self).session == (Session {
                            attachment: installed.attachment.cleared(
                                before.attachment.next_generation,
                            ),
                            ..before
                        })
                    },
                }
            }),
    {
        if let Some(error) = self.check_form(kind) {
            return Err(error);
        }
        let lease = match self.session.install_attachment(force) {
            Some(lease) => lease,
            None => {
                return Err(OpeningError::Attached);
            },
        };
        if offsets.stdout > self.session.meta.stdout_end || offsets.stderr
            > self.session.meta.stderr_end {
            self.session.compare_clear_attachment(lease.generation);
            return Err(OpeningError::OffsetAhead);
        }
        Ok(lease)
    }

    /// The second half of an opening: what it says about input is applied, if
    /// the attachment still holds the session, and the answer is made. A refused
    /// opening leaves the session unattached and its input as it was.
    pub fn complete_attach(
        &mut self,
        kind: AttachKind,
        generation: u64,
        offsets: OutputOffsets,
        stdin_start: u64,
        stdin_eof: Option<u64>,
    ) -> (r: Result<ServerHello, OpeningError>)
        requires
            old(self).valid(),
        ensures
            final(self).valid(),
            final(self).only_session(*old(self), final(self).session),
            ({
                let before = old(self).session;
                let opened = before.meta.opened(stdin_start, stdin_eof, before.nobuffer);
                if !before.attachment.holds(generation) {
                    &&& r matches Err(error) && error == OpeningError::Superseded
                    &&& final(self).session == before
                } else {
                    match opened {
                        Ok(meta) => {
                            &&& r is Ok
                            &&& final(self).session == before.with_meta(meta, meta.stdin_eof)
                            &&& final(self).is_opening(r->Ok_0, kind, offsets)
                        },
                        Err(refusal) => {
                            &&& r matches Err(error) && error == OpeningError::Stdin(refusal)
                            &&& final(self).session == (Session {
                                attachment: before.attachment.cleared(generation),
                                ..before
                            })
                        },
                    }
                }
            }),
    {
        if !self.session.is_current_attachment(generation) {
            return Err(OpeningError::Superseded);
        }
        if let Err(error) = self.session.apply_opening_stdin(generation, stdin_start, stdin_eof) {
            self.session.compare_clear_attachment(generation);
            return Err(OpeningError::Stdin(error));
        }
        Ok(self.hello(kind, offsets))
    }

    fn hello(&self, kind: AttachKind, offsets: OutputOffsets) -> (r: ServerHello)
        requires
            self.valid(),
        ensures
            self.is_opening(r, kind, offsets),
    {
        let meta = self.session.meta;
        let nobuffer = self.session.nobuffer;
        let stdout: u64 = if nobuffer {
            meta.stdout_end
        } else {
            offsets.stdout
        };
        let stderr: u64 = if nobuffer {
            meta.stderr_end
        } else {
            offsets.stderr
        };
        let bounded = match kind {
            AttachKind::Bounded => true,
            _ => false,
        };
        let attachment = match kind {
            AttachKind::Raw => None,
            AttachKind::Framed => Some(FRAMED_ATTACHMENT_V1.to_owned()),
            AttachKind::Bounded => Some(ATTACHMENT.to_owned()),
        };
        let stdin_eof_at = match kind {
            AttachKind::Raw => None,
            _ => meta.stdin_eof_at,
        };
        ServerHello {
            attachment,
            stdin_eof_at,
            session: self.session_fact(),
            offsets: AllOffsets { stdin: meta.stdin_position, stdout, stderr },
            nobuffer,
            stdin_eof: meta.stdin_eof,
            stdout_eof: if !bounded && meta.stdout_closed {
                Some(meta.stdout_end)
            } else {
                None
            },
            stderr_eof: if !bounded && meta.stderr_closed {
                Some(meta.stderr_end)
            } else {
                None
            },
            exit: if bounded {
                None
            } else {
                meta.terminal_exit()
            },
            output: if bounded {
                self.fact()
            } else {
                None
            },
        }
    }

    /// A whole opening, with nothing in between its halves.
    pub fn attach(
        &mut self,
        kind: AttachKind,
        offsets: OutputOffsets,
        stdin_start: u64,
        stdin_eof: Option<u64>,
        force: bool,
    ) -> (r: Result<(AttachmentLease, ServerHello), OpeningError>)
        requires
            old(self).valid(),
            old(self).session.attachment.next_generation < u64::MAX,
        ensures
            final(self).valid(),
            final(self).only_session(*old(self), final(self).session),
            ({
                let before = old(self).session;
                let installed = Session { attachment: before.attachment.installed(), ..before };
                let opened = before.meta.opened(stdin_start, stdin_eof, before.nobuffer);
                let unattached = Session {
                    attachment: crate::attachment::AttachmentState {
                        current: None,
                        ..installed.attachment
                    },
                    ..before
                };
                if old(self).form_refusal(kind) is Some {
                    &&& r matches Err(error) && Some(error) == old(self).form_refusal(kind)
                    &&& final(self).session == before
                } else if !before.attachment.free(force) {
                    &&& r matches Err(error) && error == OpeningError::Attached
                    &&& final(self).session == before
                } else if before.is_ahead(offsets) {
                    &&& r matches Err(error) && error == OpeningError::OffsetAhead
                    &&& final(self).session == unattached
                } else if opened is Err {
                    &&& r matches Err(error) && error == OpeningError::Stdin(opened->Err_0)
                    &&& final(self).session == unattached
                } else {
                    &&& r matches Ok((lease, hello)) && lease.generation
                        == before.attachment.next_generation && lease.displaced
                        == before.attachment.current && final(self).is_opening(hello, kind, offsets)
                    &&& final(self).session == installed.with_meta(
                        opened->Ok_0,
                        opened->Ok_0.stdin_eof,
                    )
                }
            }),
    {
        let lease = match self.begin_attach(kind, offsets, force) {
            Ok(lease) => lease,
            Err(error) => {
                return Err(error);
            },
        };
        match self.complete_attach(kind, lease.generation, offsets, stdin_start, stdin_eof) {
            Ok(hello) => Ok((lease, hello)),
            Err(error) => Err(error),
        }
    }
}

/// A bounded session refuses every request that knows no output facts, and
/// refuses it before anything is displaced, changed or signaled.
pub proof fn bounded_sessions_refuse_unaware_requests<H: GroupSignal>(
    broker: Broker<H>,
    request: BrokerRequest,
)
    requires
        broker.valid(),
        broker.is_bounded(),
        request is Attach || request is AttachFramedV1 || request is StdinEof || request is Cancel
            || request is CancelGroupPidfd,
    ensures
        broker.routed(request) == Route::Refuse(OpeningError::BoundedOnly),
{
}

/// A session without finite output refuses requests for output facts, and one
/// without group control refuses requests for it: nothing falls back.
pub proof fn nothing_falls_back<H: GroupSignal>(broker: Broker<H>, request: BrokerRequest)
    requires
        broker.valid(),
        !broker.is_bounded(),
    ensures
        request is AttachOutputV1 || request is CancelOutputV1 ==> broker.routed(request) is Refuse,
        request is CancelGroupPidfd && broker.cancellation is None ==> broker.routed(
            request,
        ) is Refuse,
        broker.routed(request) is CancelByNumber ==> broker.cancellation is None && request is Cancel,
{
}

/// An attachment is let through exactly if its form fits the session: facts for
/// finite output whose control was verified, and only for that; frames only where
/// output is retained. It is then passed on as it was asked for.
pub proof fn forms_fit_their_sessions<H: GroupSignal>(
    broker: Broker<H>,
    request: BrokerRequest,
    kind: AttachKind,
    asked: OutputOffsets,
    start: u64,
    eof: Option<u64>,
    forced: bool,
    r: Route,
)
    requires
        broker.valid(),
        request == (match kind {
            AttachKind::Raw => BrokerRequest::Attach {
                offsets: asked,
                stdin_start: start,
                stdin_eof: eof,
                force: forced,
            },
            AttachKind::Framed => BrokerRequest::AttachFramedV1 {
                offsets: asked,
                stdin_start: start,
                stdin_eof: eof,
                force: forced,
            },
            AttachKind::Bounded => BrokerRequest::AttachOutputV1 {
                offsets: asked,
                stdin_start: start,
                stdin_eof: eof,
                force: forced,
            },
        }),
        call_ensures(Broker::<H>::route, (&broker, request), r),
    ensures
        ({
            let bounded = broker.session.meta.output is Some;
            let fits = match kind {
                AttachKind::Raw => !bounded,
                AttachKind::Framed => !bounded && !broker.session.nobuffer,
                AttachKind::Bounded => bounded && broker.cancellation->0.verified,
            };
            &&& fits <==> r == (Route::Attach {
                kind,
                offsets: asked,
                stdin_start: start,
                stdin_eof: eof,
                force: forced,
            })
            &&& !fits ==> r is Refuse
            &&& r matches Route::Refuse(error) ==> {
                &&& bounded && kind !is Bounded <==> error is BoundedOnly
                &&& bounded && kind is Bounded <==> error is ControlUnavailable
                &&& !bounded && kind is Bounded <==> error is NotBounded
                &&& !bounded && kind is Framed <==> error is FramedNeedsBuffer
            }
        }),
{
}

/// Controls reach what they ask for and nothing else: a request for facts or for
/// group control is never answered with less, a session with group control is
/// never signaled by number, and a bounded session is only cancelled with facts.
pub proof fn controls_never_fall_back<H: GroupSignal>(
    broker: Broker<H>,
    request: BrokerRequest,
    r: Route,
)
    requires
        broker.valid(),
        call_ensures(Broker::<H>::route, (&broker, request), r),
    ensures
        ({
            let bounded = broker.session.meta.output is Some;
            let hardened = broker.cancellation is Some;
            &&& request is Pid <==> r is Pid
            &&& request is Session <==> r is Observe
            &&& request matches BrokerRequest::StdinEof { offset } ==> (if bounded {
                r == Route::Refuse(OpeningError::BoundedOnly)
            } else {
                r == Route::DeclareEof { offset }
            })
            &&& r is CancelByNumber <==> request is Cancel && !hardened && !bounded
            &&& r is CancelHardened <==> hardened && ((request is Cancel && !bounded) || (request
                is CancelGroupPidfd && !bounded) || (request is CancelOutputV1 && bounded))
            &&& request is Cancel && bounded ==> r == Route::Refuse(OpeningError::BoundedOnly)
            &&& request is CancelGroupPidfd && bounded ==> r == Route::Refuse(
                OpeningError::BoundedOnly,
            )
            &&& request is CancelGroupPidfd && !bounded && !hardened ==> r == Route::Refuse(
                OpeningError::NotHardened,
            )
            &&& request is CancelOutputV1 && !bounded ==> r == Route::Refuse(
                OpeningError::NotBounded,
            )
            &&& r is DeclareEof ==> request is StdinEof
            &&& r is Attach ==> request is Attach || request is AttachFramedV1 || request
                is AttachOutputV1
        }),
{
}

/// An opening takes the slot exactly if its form fits, the slot is free or taken by
/// force, and no output is asked for that does not exist. Only then is anybody
/// displaced for good; one that asks for too much leaves the slot free, and one
/// that is refused for its form or for the holder changes nothing.
pub proof fn openings_take_the_slot_last<H: GroupSignal>(
    broker: &mut Broker<H>,
    kind: AttachKind,
    offsets: OutputOffsets,
    force: bool,
    r: Result<AttachmentLease, OpeningError>,
)
    requires
        old(broker).valid(),
        old(broker).session.attachment.next_generation < u64::MAX,
        call_ensures(Broker::<H>::begin_attach, (broker, kind, offsets, force), r),
    ensures
        ({
            let before = old(broker).session;
            let after = final(broker).session;
            let bounded = before.meta.output is Some;
            let fits = match kind {
                AttachKind::Raw => !bounded,
                AttachKind::Framed => !bounded && !before.nobuffer,
                AttachKind::Bounded => bounded && old(broker).cancellation->0.verified,
            };
            let free = before.attachment.current is None || force;
            let exists_ = offsets.stdout <= before.meta.stdout_end && offsets.stderr
                <= before.meta.stderr_end;
            &&& r is Ok <==> fits && free && exists_
            &&& r matches Ok(lease) ==> after.attachment.current == Some(lease.generation)
                && before.attachment.current != Some(lease.generation) && lease.displaced
                == before.attachment.current
            &&& !fits || !free ==> after == before
            &&& fits && !free ==> r->Err_0 is Attached
            &&& fits && free && !exists_ ==> r->Err_0 is OffsetAhead
                && after.attachment.current is None
            &&& after.meta == before.meta
            &&& after.stdin_open == before.stdin_open
            &&& after.nobuffer == before.nobuffer
        }),
{
}

/// The answer to an opening says where the streams stand. With retained output they
/// continue exactly where was asked; without, at their present ends. An end is told
/// exactly of a closed stream, and an exit only once both are closed; with output
/// facts, the facts take their place.
pub proof fn answers_tell_where_streams_stand<H: GroupSignal>(
    broker: &mut Broker<H>,
    kind: AttachKind,
    generation: u64,
    offsets: OutputOffsets,
    start: u64,
    eof: Option<u64>,
    r: Result<ServerHello, OpeningError>,
)
    requires
        old(broker).valid(),
        call_ensures(
            Broker::<H>::complete_attach,
            (broker, kind, generation, offsets, start, eof),
            r,
        ),
    ensures
        r matches Ok(hello) ==> {
            let session = final(broker).session;
            let meta = session.meta;
            &&& old(broker).session.attachment.current == Some(generation)
            &&& session.attachment.current == Some(generation)
            &&& hello.offsets.stdin == meta.stdin_position
            &&& !session.nobuffer ==> hello.offsets.stdout == offsets.stdout
                && hello.offsets.stderr == offsets.stderr
            &&& session.nobuffer ==> hello.offsets.stdout == meta.stdout_end
                && hello.offsets.stderr == meta.stderr_end
            &&& hello.nobuffer == session.nobuffer
            &&& hello.stdin_eof == meta.stdin_eof
            &&& kind is Raw <==> hello.attachment is None
            &&& kind is Framed ==> hello.attachment->0@ == "framed-v1"@
            &&& kind is Bounded ==> hello.attachment->0@ == "framed-output-v1"@
            &&& kind !is Raw ==> hello.stdin_eof_at == meta.stdin_eof_at
            &&& kind is Raw ==> hello.stdin_eof_at is None
            &&& kind !is Bounded ==> {
                &&& hello.stdout_eof is Some <==> meta.stdout_closed
                &&& hello.stderr_eof is Some <==> meta.stderr_closed
                &&& hello.stdout_eof matches Some(end) ==> end == meta.stdout_end
                &&& hello.stderr_eof matches Some(end) ==> end == meta.stderr_end
                &&& hello.exit is Some <==> meta.status is Some && meta.stdout_closed
                    && meta.stderr_closed
                &&& hello.exit is Some ==> hello.exit == meta.status
                &&& hello.output is None
            }
            &&& kind is Bounded ==> {
                &&& hello.stdout_eof is None && hello.stderr_eof is None && hello.exit is None
                &&& hello.output is Some <==> meta.output is Some
                &&& hello.output matches Some(fact) ==> {
                    &&& fact.limit == meta.output->0.limit
                    &&& fact.leader_exit == meta.status
                    &&& fact.first_stop == meta.output->0.first_stop
                    &&& fact.stdout.retained == meta.output->0.stdout.retained
                    &&& fact.stderr.retained == meta.output->0.stderr.retained
                }
            }
            &&& hello.session is Some <==> old(broker).cancellation is Some
        },
{
}

/// An opening is completed exactly if it still holds the session and what it says
/// about input agrees with it. One that was superseded changes nothing; one that
/// disagrees leaves the slot free and the input as it was.
pub proof fn openings_are_completed_or_undone<H: GroupSignal>(
    broker: &mut Broker<H>,
    kind: AttachKind,
    generation: u64,
    offsets: OutputOffsets,
    start: u64,
    eof: Option<u64>,
    r: Result<ServerHello, OpeningError>,
)
    requires
        old(broker).valid(),
        call_ensures(
            Broker::<H>::complete_attach,
            (broker, kind, generation, offsets, start, eof),
            r,
        ),
    ensures
        ({
            let before = old(broker).session;
            let after = final(broker).session;
            let meta = before.meta;
            let holder = before.attachment.current == Some(generation);
            let reaches = start <= meta.stdin_position || (!meta.stdin_eof && before.nobuffer && (
            meta.stdin_eof_at is None || start <= meta.stdin_eof_at->0));
            let same_end = eof is None || meta.stdin_eof_at is None || eof == meta.stdin_eof_at;
            let position = if start > meta.stdin_position {
                start
            } else {
                meta.stdin_position
            };
            let not_behind = (eof is None || eof->0 >= position) && (meta.stdin_eof_at is None
                || meta.stdin_eof_at->0 >= position);
            &&& r is Ok <==> holder && reaches && same_end && not_behind
            &&& !holder ==> r->Err_0 is Superseded && after == before
            &&& holder && r is Err ==> r->Err_0 is Stdin && after.attachment.current is None
                && after.meta == meta && after.stdin_open == before.stdin_open
            &&& r is Ok ==> {
                &&& after.meta.stdin_position == position
                &&& eof is Some ==> after.meta.stdin_eof_at == eof
                &&& eof is None ==> after.meta.stdin_eof_at == meta.stdin_eof_at
                &&& after.meta.stdin_eof <==> after.meta.stdin_eof_at == Some(position)
                &&& after.attachment == before.attachment
            }
            &&& after.meta.stdout_end == meta.stdout_end && after.meta.stderr_end == meta.stderr_end
            &&& after.meta.status == meta.status
            &&& final(broker).connections == old(broker).connections
            &&& final(broker).pins == old(broker).pins
        }),
{
}

/// A whole opening succeeds exactly if both of its halves would, displaces whom it
/// says, and leaves nobody attached when it fails after it took the slot.
pub proof fn whole_openings_succeed_or_leave_nobody<H: GroupSignal>(
    broker: &mut Broker<H>,
    kind: AttachKind,
    offsets: OutputOffsets,
    start: u64,
    eof: Option<u64>,
    force: bool,
    r: Result<(AttachmentLease, ServerHello), OpeningError>,
)
    requires
        old(broker).valid(),
        old(broker).session.attachment.next_generation < u64::MAX,
        call_ensures(Broker::<H>::attach, (broker, kind, offsets, start, eof, force), r),
    ensures
        ({
            let before = old(broker).session;
            let after = final(broker).session;
            let meta = before.meta;
            let bounded = meta.output is Some;
            let fits = match kind {
                AttachKind::Raw => !bounded,
                AttachKind::Framed => !bounded && !before.nobuffer,
                AttachKind::Bounded => bounded && old(broker).cancellation->0.verified,
            };
            let free = before.attachment.current is None || force;
            let exists_ = offsets.stdout <= meta.stdout_end && offsets.stderr <= meta.stderr_end;
            let reaches = start <= meta.stdin_position || (!meta.stdin_eof && before.nobuffer && (
            meta.stdin_eof_at is None || start <= meta.stdin_eof_at->0));
            let same_end = eof is None || meta.stdin_eof_at is None || eof == meta.stdin_eof_at;
            let position = if start > meta.stdin_position {
                start
            } else {
                meta.stdin_position
            };
            let not_behind = (eof is None || eof->0 >= position) && (meta.stdin_eof_at is None
                || meta.stdin_eof_at->0 >= position);
            let agrees = reaches && same_end && not_behind;
            &&& r is Ok <==> fits && free && exists_ && agrees
            &&& r matches Ok((lease, hello)) ==> {
                &&& lease.displaced == before.attachment.current
                &&& after.attachment.current == Some(lease.generation)
                &&& after.meta.stdin_position == position
                &&& hello.offsets.stdin == position
                &&& !before.nobuffer ==> hello.offsets.stdout == offsets.stdout
                    && hello.offsets.stderr == offsets.stderr
            }
            &&& !fits || !free ==> after == before
            &&& fits && !free ==> r->Err_0 is Attached
            &&& fits && free && !exists_ ==> r->Err_0 is OffsetAhead
            &&& fits && free && exists_ && !agrees ==> r->Err_0 is Stdin
            &&& fits && free && r is Err ==> after.attachment.current is None && after.meta == meta
        }),
{
}

/// A session names group control exactly if it was verified, finite output exactly
/// if it also has that, and nothing else; and tells a failure of its operation in
/// its words.
pub proof fn sessions_name_what_was_verified<H: GroupSignal>(
    broker: Broker<H>,
    r: Option<SessionFact>,
)
    requires
        call_ensures(Broker::<H>::session_fact, (&broker,), r),
    ensures
        r is Some <==> broker.cancellation is Some,
        r matches Some(told) ==> {
            let control = broker.cancellation->0;
            let names = told.capabilities@;
            &&& !control.verified ==> names.len() == 0
            &&& control.verified && broker.session.meta.output is None ==> names.len() == 1
                && names[0]@ == "group-pidfd-cancel-v1"@
            &&& control.verified && broker.session.meta.output is Some ==> names.len() == 2
                && names[0]@ == "group-pidfd-cancel-v1"@ && names[1]@ == "finite-output-v1"@
            &&& told.workload_started
            &&& control.phase is Ready ==> told.cancel_state@ == "ready"@
            &&& control.phase is Complete ==> told.cancel_state@ == "settled"@
            &&& control.phase is Failed ==> told.cancel_state@ == "failed"@
            &&& control.result matches Some(Err(error)) ==> (told.cancel_error matches Some(text)
                && text@ == error@)
            &&& !(control.result matches Some(Err(_))) ==> told.cancel_error is None
        },
{
    if let Some(told) = r {
        let names = told.capabilities@;
        let control = broker.cancellation->0;
        assert(text::texts(names).len() == names.len());
        if control.verified {
            assert(text::texts(names)[0] == names[0]@);
            if broker.session.meta.output is Some {
                assert(text::texts(names)[1] == names[1]@);
            }
        }
    }
}

/// A held session is told in the words and with the code by which a client knows
/// it, and no other refusal has that code.
pub proof fn held_sessions_are_told_apart(
    error: OpeningError,
    text: String,
    code: Option<String>,
)
    requires
        call_ensures(OpeningError::message, (&error,), text),
        call_ensures(OpeningError::code, (&error,), code),
    ensures
        error is Attached ==> text@ == "session already has an attached client"@,
        error is Attached <==> code is Some,
        code matches Some(name) ==> name@ == "session_attached"@,
        error is Superseded ==> text@ == "attachment superseded"@,
        error is OffsetAhead ==> text@ == "requested output offset is ahead of the stream"@,
{
}

} // verus!
