//! Connection lifecycle and event handling.
//!
//! A [`Client`] owns the state that the four event callbacks of the
//! original page share: the lifecycle state of the socket connection and
//! the staged outbound message.  Each handler method consumes one
//! external event, updates that state, and reports which transmission the
//! caller must perform; diagnostic records are appended to a log history.
//! The whole behaviour is captured by the spec-level state machine
//! [`step_model`], which every handler is proved to follow.

use vstd::prelude::*;
use crate::endpoint::{check_endpoint, is_well_formed_endpoint};

verus! {

/// Lifecycle states of the connection, mirroring the underlying socket.
#[derive(Clone, Copy, PartialEq, Eq, Structural, Debug)]
pub enum ConnState {
    Connecting,
    Open,
    Closed,
}

/// One diagnostic record handed to the logging sink.
#[derive(PartialEq, Eq, Debug)]
pub enum LogEntry {
    /// An inbound payload was decoded as this text.
    Inbound(String),
    /// A send was triggered while the connection was not open.
    TransmitError,
    /// An inbound payload could not be decoded as text.
    PayloadDecodeError,
    /// The socket reported an error; its descriptor is recorded verbatim.
    ErrorNotice(String),
}

/// Spec-level image of a [`LogEntry`].
#[verifier::ext_equal]
pub ghost enum LogRecord {
    Inbound(Seq<char>),
    TransmitError,
    PayloadDecodeError,
    ErrorNotice(Seq<char>),
}

impl View for LogEntry {
    type V = LogRecord;

    open spec fn view(&self) -> LogRecord {
        match self {
            LogEntry::Inbound(s) => LogRecord::Inbound(s@),
            LogEntry::TransmitError => LogRecord::TransmitError,
            LogEntry::PayloadDecodeError => LogRecord::PayloadDecodeError,
            LogEntry::ErrorNotice(s) => LogRecord::ErrorNotice(s@),
        }
    }
}

/// The external events that drive the state machine.
#[verifier::ext_equal]
pub ghost enum Event {
    /// The socket reported that the connection is open.
    Opened,
    /// The socket reported that the connection closed.
    Disconnected,
    /// The text-input element changed to this text.
    InputChanged(Seq<char>),
    /// The send control was activated.
    SendTriggered,
    /// An inbound payload arrived; `Some` carries its decoded text,
    /// `None` stands for a payload that is not decodable as text.
    Received(Option<Seq<char>>),
    /// The socket reported an error with this descriptor.
    ErrorNoticed(Seq<char>),
}

/// Spec-level image of a [`Client`]: the connection state together with
/// the histories of everything it decided (transmissions and log records).
#[verifier::ext_equal]
pub ghost struct ClientModel {
    pub endpoint: Seq<char>,
    pub state: ConnState,
    pub staged: Seq<char>,
    pub sent: Seq<Seq<char>>,
    pub log: Seq<LogRecord>,
}

/// The fixed greeting transmitted once when the connection opens.
pub open spec fn greeting() -> Seq<char> {
    "ping"@
}

/// The client state right after a successful `initialize`.
pub open spec fn initial_model(endpoint: Seq<char>) -> ClientModel {
    ClientModel {
        endpoint: endpoint,
        state: ConnState::Connecting,
        staged: Seq::empty(),
        sent: Seq::empty(),
        log: Seq::empty(),
    }
}

/// The state machine: how one event transforms the client.
///
/// - `Opened` moves `Connecting` to `Open` and transmits the greeting;
///   in any other state it changes nothing.
/// - `Disconnected` moves to the terminal `Closed` state.
/// - `InputChanged` overwrites the staged message and nothing else.
/// - `SendTriggered` transmits the staged message when the connection is
///   open (without clearing it); otherwise it logs a transmit error.
/// - `Received` logs the decoded text, or a decode error.
/// - `ErrorNoticed` logs the descriptor and changes no other state.
pub open spec fn step_model(c: ClientModel, e: Event) -> ClientModel {
    match e {
        Event::Opened => if c.state == ConnState::Connecting {
            ClientModel { state: ConnState::Open, sent: c.sent.push(greeting()), ..c }
        } else {
            c
        },
        Event::Disconnected => ClientModel { state: ConnState::Closed, ..c },
        Event::InputChanged(t) => ClientModel { staged: t, ..c },
        Event::SendTriggered => if c.state == ConnState::Open {
            ClientModel { sent: c.sent.push(c.staged), ..c }
        } else {
            ClientModel { log: c.log.push(LogRecord::TransmitError), ..c }
        },
        Event::Received(p) => match p {
            Some(t) => ClientModel { log: c.log.push(LogRecord::Inbound(t)), ..c },
            None => ClientModel { log: c.log.push(LogRecord::PayloadDecodeError), ..c },
        },
        Event::ErrorNoticed(d) => ClientModel { log: c.log.push(LogRecord::ErrorNotice(d)), ..c },
    }
}

/// Startup failed because the endpoint URL is malformed.
#[derive(Clone, Copy, PartialEq, Eq, Structural, Debug)]
pub struct ConnectionCreationError;

/// Spec-level image of a sequence of owned texts.
pub open spec fn texts_view(v: Seq<String>) -> Seq<Seq<char>> {
    Seq::new(v.len(), |i: int| v[i]@)
}

/// Spec-level image of a sequence of log entries.
pub open spec fn log_entries_view(v: Seq<LogEntry>) -> Seq<LogRecord> {
    Seq::new(v.len(), |i: int| v[i]@)
}

/// Spec-level image of an optional decoded payload.
pub open spec fn payload_view(p: Option<String>) -> Option<Seq<char>> {
    match p {
        Some(s) => Some(s@),
        None => None,
    }
}

/// The connection manager: one connection to a fixed endpoint, the staged
/// outbound message, and the histories of transmissions and log records.
pub struct Client {
    /// The endpoint URL the connection was created for.
    pub endpoint: String,
    /// Current lifecycle state, as last reported by the socket.
    pub state: ConnState,
    /// The latest composed, not-yet-sent message text.
    pub staged: String,
    /// Every text whose transmission was decided, oldest first.
    pub sent: Vec<String>,
    /// Every diagnostic record, oldest first.
    pub log: Vec<LogEntry>,
}

impl View for Client {
    type V = ClientModel;

    open spec fn view(&self) -> ClientModel {
        ClientModel {
            endpoint: self.endpoint@,
            state: self.state,
            staged: self.staged@,
            sent: texts_view(self.sent@),
            log: log_entries_view(self.log@),
        }
    }
}

proof fn lemma_texts_view_push(v: Seq<String>, s: String)
    ensures
        texts_view(v.push(s)) == texts_view(v).push(s@),
{
    assert(texts_view(v.push(s)) =~= texts_view(v).push(s@));
}

proof fn lemma_log_entries_view_push(v: Seq<LogEntry>, e: LogEntry)
    ensures
        log_entries_view(v.push(e)) == log_entries_view(v).push(e@),
{
    assert(log_entries_view(v.push(e)) =~= log_entries_view(v).push(e@));
}

/// The greeting as an owned text.
fn greeting_text() -> (s: String)
    ensures
        s@ == greeting(),
{
    "ping".to_owned()
}

impl Client {
    /// Creates the client for `endpoint`: the connection starts out
    /// `Connecting` with an empty staged message and empty histories.
    /// Succeeds exactly on well-formed endpoint URLs; on a malformed one
    /// it fails with `ConnectionCreationError` and no client exists.
    pub fn initialize(endpoint: String) -> (r: Result<Client, ConnectionCreationError>)
        ensures
            r is Ok <==> is_well_formed_endpoint(endpoint@),
            r matches Ok(c) ==> c@ == initial_model(endpoint@),
    {
        if check_endpoint(endpoint.as_str()) {
            let c = Client {
                endpoint: endpoint,
                state: ConnState::Connecting,
                staged: String::new(),
                sent: Vec::new(),
                log: Vec::new(),
            };
            proof {
                assert(c@ =~~= initial_model(c.endpoint@));
            }
            Ok(c)
        } else {
            Err(ConnectionCreationError)
        }
    }

    /// Handles the socket's open notification.  From `Connecting` the
    /// connection becomes `Open` and exactly one transmission of the
    /// greeting `"ping"` is decided, whatever the staged message holds;
    /// the returned text is what the caller must transmit.  In any other
    /// state nothing changes and nothing is transmitted.
    pub fn on_open(&mut self) -> (t: Option<String>)
        ensures
            final(self)@ == step_model(old(self)@, Event::Opened),
            old(self)@.state == ConnState::Connecting ==> (t matches Some(g) && g@ == greeting())
                && final(self)@.state == ConnState::Open && final(self)@.sent == old(self)@.sent.push(greeting()),
            old(self)@.state != ConnState::Connecting ==> t is None && final(self)@ == old(self)@,
            final(self)@.staged == old(self)@.staged,
            final(self)@.log == old(self)@.log,
    {
        match self.state {
            ConnState::Connecting => {
                self.state = ConnState::Open;
                let g = greeting_text();
                self.sent.push(g.clone());
                proof {
                    lemma_texts_view_push(old(self).sent@, g);
                    assert(self@ =~~= step_model(old(self)@, Event::Opened));
                }
                Some(g)
            },
            _ => {
                proof {
                    assert(self@ =~~= step_model(old(self)@, Event::Opened));
                }
                None
            },
        }
    }

    /// Handles the socket's close notification: the connection is
    /// `Closed` from here on; nothing else changes.
    pub fn on_disconnect(&mut self)
        ensures
            final(self)@ == step_model(old(self)@, Event::Disconnected),
            final(self)@.state == ConnState::Closed,
            final(self)@ == (ClientModel { state: ConnState::Closed, ..old(self)@ }),
    {
        self.state = ConnState::Closed;
        proof {
            assert(self@ =~~= step_model(old(self)@, Event::Disconnected));
        }
    }

    /// Handles a change of the text-input element: the staged message is
    /// overwritten with `text`, verbatim; no transmission and no log
    /// record results, and the connection state is untouched.
    pub fn on_input_change(&mut self, text: String)
        ensures
            final(self)@ == step_model(old(self)@, Event::InputChanged(text@)),
            final(self)@.staged == text@,
            final(self)@ == (ClientModel { staged: text@, ..old(self)@ }),
    {
        self.staged = text;
        proof {
            assert(self@ =~~= step_model(old(self)@, Event::InputChanged(self.staged@)));
        }
    }

    /// Handles an activation of the send control.  When the connection is
    /// `Open`, exactly one transmission of the staged message is decided
    /// and returned for the caller to perform; the staged message is kept
    /// (activating again without new input resends the same text).  In
    /// any other state nothing is transmitted and a `TransmitError` is
    /// logged.
    pub fn on_send_trigger(&mut self) -> (t: Option<String>)
        ensures
            final(self)@ == step_model(old(self)@, Event::SendTriggered),
            old(self)@.state == ConnState::Open ==> (t matches Some(g) && g@ == old(
                self,
            )@.staged) && final(self)@.sent == old(self)@.sent.push(old(self)@.staged) && final(self)@.log == old(
                self,
            )@.log,
            old(self)@.state != ConnState::Open ==> t is None && final(self)@.sent == old(self)@.sent
                && final(self)@.log == old(self)@.log.push(LogRecord::TransmitError),
            final(self)@.staged == old(self)@.staged,
            final(self)@.state == old(self)@.state,
            final(self)@.endpoint == old(self)@.endpoint,
    {
        match self.state {
            ConnState::Open => {
                let g = self.staged.clone();
                self.sent.push(g.clone());
                proof {
                    lemma_texts_view_push(old(self).sent@, g);
                    assert(self@ =~~= step_model(old(self)@, Event::SendTriggered));
                }
                Some(g)
            },
            _ => {
                self.log.push(LogEntry::TransmitError);
                proof {
                    lemma_log_entries_view_push(old(self).log@, LogEntry::TransmitError);
                    assert(self@ =~~= step_model(old(self)@, Event::SendTriggered));
                }
                None
            },
        }
    }

    /// Handles an inbound payload.  `Some(text)` is a payload decoded as
    /// text: exactly one log record holding that text is appended.
    /// `None` is a payload that could not be decoded: exactly one
    /// `PayloadDecodeError` record is appended.  Neither the connection
    /// state nor the staged message nor the transmissions change.
    pub fn on_message(&mut self, payload: Option<String>)
        ensures
            final(self)@ == step_model(old(self)@, Event::Received(payload_view(payload))),
            payload matches Some(text) ==> final(self)@.log == old(self)@.log.push(
                LogRecord::Inbound(text@),
            ),
            payload is None ==> final(self)@.log == old(self)@.log.push(LogRecord::PayloadDecodeError),
            final(self)@ == (ClientModel { log: final(self)@.log, ..old(self)@ }),
    {
        let ghost m = old(self)@;
        let ghost pv = payload_view(payload);
        match payload {
            Some(text) => {
                let ghost tv = text@;
                self.log.push(LogEntry::Inbound(text));
                proof {
                    lemma_log_entries_view_push(old(self).log@, LogEntry::Inbound(text));
                    assert(self@ =~~= step_model(m, Event::Received(pv)));
                }
            },
            None => {
                self.log.push(LogEntry::PayloadDecodeError);
                proof {
                    lemma_log_entries_view_push(old(self).log@, LogEntry::PayloadDecodeError);
                    assert(self@ =~~= step_model(m, Event::Received(pv)));
                }
            },
        }
    }

    /// Handles an error notification from the socket: exactly one record
    /// holding the descriptor is appended to the log; nothing else
    /// changes.  This always succeeds.
    pub fn on_error(&mut self, descriptor: String)
        ensures
            final(self)@ == step_model(old(self)@, Event::ErrorNoticed(descriptor@)),
            final(self)@.log == old(self)@.log.push(LogRecord::ErrorNotice(descriptor@)),
            final(self)@ == (ClientModel { log: final(self)@.log, ..old(self)@ }),
    {
        let ghost d = descriptor@;
        self.log.push(LogEntry::ErrorNotice(descriptor));
        proof {
            lemma_log_entries_view_push(old(self).log@, LogEntry::ErrorNotice(descriptor));
            assert(self@ =~~= step_model(old(self)@, Event::ErrorNoticed(d)));
        }
    }
}

/// Folds the state machine over a sequence of events, oldest first.
pub open spec fn run_model(c: ClientModel, es: Seq<Event>) -> ClientModel
    decreases es.len(),
{
    if es.len() == 0 {
        c
    } else {
        step_model(run_model(c, es.drop_last()), es.last())
    }
}

/// The events that the input and send controls can produce.
pub open spec fn is_staging_or_send(e: Event) -> bool {
    e is InputChanged || e is SendTriggered
}

/// The text of the last input-change event of the sequence, if any.
pub open spec fn last_input_text(es: Seq<Event>) -> Option<Seq<char>>
    decreases es.len(),
{
    if es.len() == 0 {
        None
    } else {
        match es.last() {
            Event::InputChanged(t) => Some(t),
            _ => last_input_text(es.drop_last()),
        }
    }
}

/// Last write wins: over any mixture of input-change and send-trigger
/// events, the staged message afterwards is the text of the latest
/// input change — regardless of how send triggers interleave — and the
/// original staged text when no input change occurred at all.
pub proof fn lemma_last_write_wins(c: ClientModel, es: Seq<Event>)
    requires
        forall|i: int| 0 <= i < es.len() ==> is_staging_or_send(#[trigger] es[i]),
    ensures
        run_model(c, es).staged == match last_input_text(es) {
            Some(t) => t,
            None => c.staged,
        },
    decreases es.len(),
{
    if es.len() > 0 {
        assert forall|i: int| 0 <= i < es.drop_last().len() implies is_staging_or_send(
            #[trigger] es.drop_last()[i],
        ) by {
            assert(es.drop_last()[i] == es[i]);
        }
        lemma_last_write_wins(c, es.drop_last());
        assert(is_staging_or_send(es[es.len() - 1]));
    }
}

/// Non-idempotent sending over idempotent staging: while the connection
/// is open, two send activations without an input change in between
/// transmit the staged text twice, and the staged text is still kept.
pub proof fn lemma_send_twice_resends(c: ClientModel)
    requires
        c.state == ConnState::Open,
    ensures
        run_model(c, seq![Event::SendTriggered, Event::SendTriggered]).sent == c.sent.push(
            c.staged,
        ).push(c.staged),
        run_model(c, seq![Event::SendTriggered, Event::SendTriggered]).staged == c.staged,
{
    let es = seq![Event::SendTriggered, Event::SendTriggered];
    let s1 = step_model(c, Event::SendTriggered);
    let s2 = step_model(s1, Event::SendTriggered);
    assert(es.drop_last() =~= seq![Event::SendTriggered]);
    assert(seq![Event::SendTriggered].drop_last() =~= Seq::<Event>::empty());
    assert(run_model(c, Seq::<Event>::empty()) == c);
    assert(run_model(c, seq![Event::SendTriggered]) == s1);
    assert(run_model(c, es) == s2);
}

} // verus!
