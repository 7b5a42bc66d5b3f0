//! Exchange of messages with a server: what each message changes and what to do next.
//!
//! The messages themselves are read and written elsewhere; the rules here are told what came and
//! say what is owed.

use crate::net::{BackendKeyData, ErrorResponse, Parameters};
#[allow(unused_imports)]
use crate::server::connection::StreamState;
use crate::server::connection::Server;
use crate::server::error::Error;
#[allow(unused_imports)]
use crate::server::prepared::{has_name, is_without, with_names, PreparedStatements};
use crate::server::stats::State;
#[allow(unused_imports)]
use crate::server::stats::Stats;
#[allow(unused_imports)]
use crate::text::views;
use crate::text::{owned, same};
use crate::time::Instant;
use vstd::prelude::*;

verus! {

/// What a message from the server says, as far as it matters here.
#[derive(Debug)]
pub enum Reply {
    /// The server is ready for a query, in a transaction of this status.
    ReadyForQuery { status: char },
    /// Something failed.
    Error(ErrorResponse),
    /// The server begins to stream changes.
    CopyBoth,
    /// A setting has this value.
    ParameterStatus { name: String, value: String },
    /// A command was executed.
    CommandComplete { command: String },
    /// A portal has more rows than were asked for.
    PortalSuspended,
    /// The server takes in rows.
    CopyIn,
    /// A statement was prepared.
    ParseComplete,
    /// A portal was bound.
    BindComplete,
    /// A statement or portal was closed.
    CloseComplete,
    /// The message could not be understood.
    Malformed,
    /// Anything else.
    Other,
}

/// A message from the server.
#[derive(Debug)]
pub struct Message {
    /// Kind of the message.
    pub code: char,
    /// Its length in bytes.
    pub len: usize,
    /// What it says.
    pub body: Reply,
    /// It is part of a stream of changes.
    pub streaming: bool,
    /// Connection that it came from.
    pub backend: BackendKeyData,
}

/// What is done with a message that came while statements were being prepared.
#[derive(Debug)]
pub enum Relay {
    /// It goes to the client.
    Forward,
    /// It was the pooler's own doing and the client does not see it.
    Hold,
    /// It should not have come.
    Refuse(Error),
}

/// What came from the server.
#[derive(Debug)]
pub enum Incoming {
    /// A message that the pooler makes up.
    Simulated(Message),
    /// A message.
    Arrived(Message, Relay),
    /// Nothing more: the network failed.
    Broken(Error),
}

/// The server gives up on the connection after such an error.
pub open spec fn fatal(e: ErrorResponse) -> bool {
    e.severity@ == "FATAL"@ || e.severity@ == "PANIC"@
}

/// The command leaves statements behind that the pooler does not know, or takes some away.
pub open spec fn changes_prepared(command: Seq<char>) -> bool {
    command == "PREPARE"@ || command == "DEALLOCATE"@
}

/// The command takes all prepared statements away.
pub open spec fn drops_prepared(command: Seq<char>) -> bool {
    !changes_prepared(command) && (command == "DEALLOCATE ALL"@ || command == "DISCARD ALL"@)
}

/// The command takes all settings back.
pub open spec fn drops_params(command: Seq<char>) -> bool {
    !changes_prepared(command) && command != "DEALLOCATE ALL"@ && (command == "DISCARD ALL"@
        || command == "RESET"@)
}

/// The error that a message amounts to.
pub open spec fn failure(m: Message) -> Option<Error> {
    match m.body {
        Reply::ReadyForQuery { status } => if status == 'I' || status == 'T' || status == 'E' {
            None
        } else {
            Some(Error::UnexpectedTransactionStatus(status))
        },
        Reply::Error(e) => if fatal(e) {
            Some(Error::ExecutionError(e))
        } else {
            None
        },
        Reply::Malformed => Some(Error::MalformedMessage(m.code)),
        _ => None,
    }
}

/// Statistics after a message of this length that says the server is ready.
pub open spec fn ready_stats(stats: Stats, len: usize) -> Stats {
    stats.with_received(len).with_query()
}

/// `after` is what a message makes of `before`.
pub open spec fn received(before: Server, after: Server, m: Message, now: Instant) -> bool {
    let counted = before.stats.with_received(m.len);
    match m.body {
        Reply::ReadyForQuery { status } => {
            let ready = ready_stats(before.stats, m.len);
            if status == 'I' {
                after == (Server {
                    in_transaction: false,
                    stats: ready.with_transaction(now, State::Idle),
                    streaming: false,
                    statement_executed: false,
                    ..before
                })
            } else if status == 'T' {
                after == (Server {
                    in_transaction: true,
                    stats: ready.in_state(State::IdleInTransaction),
                    streaming: false,
                    statement_executed: false,
                    ..before
                })
            } else if status == 'E' {
                after == (Server {
                    stats: ready.with_transaction(now, State::TransactionError),
                    streaming: false,
                    statement_executed: false,
                    ..before
                })
            } else {
                after == (Server { stats: ready.in_state(State::Error), ..before })
            }
        },
        Reply::Error(e) => after == (Server {
            schema_changed: e.code@ == "0A000"@,
            stats: if fatal(e) {
                counted.with_error().in_state(State::ForceClose)
            } else {
                counted.with_error()
            },
            ..before
        }),
        Reply::CopyBoth => after == (Server { streaming: true, stats: counted, ..before }),
        Reply::ParameterStatus { name, value } => {
            &&& after == (Server {
                changed_params: after.changed_params,
                stats: counted,
                ..before
            })
            &&& after.changed_params.transaction == before.changed_params.transaction
            &&& forall|n: Seq<char>| #[trigger]
                after.changed_params.value(n) == if n == name@ {
                    Some(value@)
                } else {
                    before.changed_params.value(n)
                }
        },
        Reply::CommandComplete { command } => {
            &&& after == (Server {
                statement_executed: true,
                sync_prepared: before.sync_prepared || changes_prepared(command@),
                prepared_statements: PreparedStatements {
                    names: after.prepared_statements.names,
                    ..before.prepared_statements
                },
                client_params: after.client_params,
                stats: counted,
                ..before
            })
            &&& if drops_prepared(command@) {
                after.prepared_statements.names@.len() == 0
            } else {
                after.prepared_statements.names == before.prepared_statements.names
            }
            &&& if drops_params(command@) {
                after.client_params.cleared()
            } else {
                after.client_params == before.client_params
            }
        },
        Reply::PortalSuspended => after == (Server {
            statement_executed: true,
            stats: counted,
            ..before
        }),
        Reply::CopyIn => after == (Server { stats: counted.in_state(State::CopyMode), ..before }),
        Reply::ParseComplete => after == (Server { stats: counted.with_parse(), ..before }),
        Reply::BindComplete => after == (Server { stats: counted.with_bind(), ..before }),
        Reply::CloseComplete | Reply::Malformed | Reply::Other => after == (Server {
            stats: counted,
            ..before
        }),
    }
}

/// `after` and `r` are what something that came makes of `before`.
pub open spec fn read_in(
    before: Server,
    after: Server,
    incoming: Incoming,
    now: Instant,
    r: Result<Option<Message>, Error>,
) -> bool {
    match incoming {
        Incoming::Simulated(m) => after == before && r == Ok::<Option<Message>, Error>(
            Some(Message { backend: before.id, ..m }),
        ),
        Incoming::Arrived(m, Relay::Forward) => {
            &&& received(before, after, m, now)
            &&& match failure(m) {
                Some(e) => r == Err::<Option<Message>, Error>(e),
                None => r == Ok::<Option<Message>, Error>(Some(tagged(before, m))),
            }
        },
        Incoming::Arrived(m, Relay::Hold) => after == before && r == Ok::<Option<Message>, Error>(
            None,
        ),
        Incoming::Arrived(m, Relay::Refuse(e)) => {
            &&& r == Err::<Option<Message>, Error>(e)
            &&& after == if e is ProtocolOutOfSync {
                Server { stats: before.stats.in_state(State::Error), ..before }
            } else {
                before
            }
        },
        Incoming::Broken(e) => r == Err::<Option<Message>, Error>(e) && after == (Server {
            stats: before.stats.in_state(State::Error),
            ..before
        }),
    }
}

/// The message as it is handed on.
pub open spec fn tagged(s: Server, m: Message) -> Message {
    Message { streaming: s.streaming, backend: s.id, ..m }
}

impl Server {
    /// The server is ready for a query, in a transaction of this status.
    fn receive_ready(&mut self, message: &Message, status: char, now: Instant) -> (r: Result<
        (),
        Error,
    >)
        requires
            message.body == (Reply::ReadyForQuery { status }),
        ensures
            received(*old(self), *final(self), *message, now),
            match failure(*message) {
                Some(e) => r == Err::<(), Error>(e),
                None => r is Ok,
            },
    {
        self.stats.receive(message.len);
        self.stats.query();
        if status == 'I' {
            self.in_transaction = false;
            self.stats.transaction(now);
        } else if status == 'T' {
            self.in_transaction = true;
            self.stats.state(State::IdleInTransaction);
        } else if status == 'E' {
            self.stats.transaction_error(now);
        } else {
            self.stats.state(State::Error);
            return Err(Error::UnexpectedTransactionStatus(status));
        }
        self.streaming = false;
        self.statement_executed = false;
        Ok(())
    }

    /// Something failed on the server.
    fn receive_error(&mut self, message: &Message, error: &ErrorResponse, now: Instant) -> (r:
        Result<(), Error>)
        requires
            message.body == Reply::Error(*error),
        ensures
            received(*old(self), *final(self), *message, now),
            match failure(*message) {
                Some(e) => r == Err::<(), Error>(e),
                None => r is Ok,
            },
    {
        self.stats.receive(message.len);
        self.schema_changed = same(error.code.as_str(), "0A000");
        self.stats.error();
        // The server is about to close the connection, which is nobody's fault: the connection is
        // closed and its pool stays in use.
        if same(error.severity.as_str(), "FATAL") || same(error.severity.as_str(), "PANIC") {
            self.stats.state(State::ForceClose);
            return Err(Error::ExecutionError(error.clone()));
        }
        Ok(())
    }

    /// A command was executed.
    fn receive_command(&mut self, message: &Message, command: &String, now: Instant)
        requires
            old(self).wf(),
            message.body == (Reply::CommandComplete { command: *command }),
        ensures
            final(self).wf(),
            received(*old(self), *final(self), *message, now),
    {
        let name = command.as_str();
        let changes = same(name, "PREPARE") || same(name, "DEALLOCATE");
        let deallocates = same(name, "DEALLOCATE ALL");
        let discards = same(name, "DISCARD ALL");
        let resets = same(name, "RESET");
        let forget_prepared = !changes && (deallocates || discards);
        // Settings have to be made again for the next client.
        let forget_params = !changes && !deallocates && (discards || resets);
        assert(changes == changes_prepared(command@));
        assert(forget_prepared == drops_prepared(command@));
        assert(forget_params == drops_params(command@));
        self.stats.receive(message.len);
        self.statement_executed = true;
        if changes {
            self.sync_prepared = true;
        }
        if forget_prepared {
            self.prepared_statements.clear();
        }
        if forget_params {
            self.client_params.clear();
        }
    }

    /// A setting has this value.
    fn receive_parameter(&mut self, message: &Message, name: &String, value: &String, now: Instant)
        requires
            old(self).wf(),
            message.body == (Reply::ParameterStatus { name: *name, value: *value }),
        ensures
            final(self).wf(),
            received(*old(self), *final(self), *message, now),
    {
        self.stats.receive(message.len);
        self.changed_params.insert(name.clone(), value.clone());
    }

    /// Take note of a message from the server.
    #[verifier::rlimit(50)]
    pub fn receive(&mut self, message: &Message, now: Instant) -> (r: Result<(), Error>)
        requires
            old(self).wf(),
        ensures
            final(self).wf(),
            received(*old(self), *final(self), *message, now),
            match failure(*message) {
                Some(e) => r == Err::<(), Error>(e),
                None => r is Ok,
            },
    {
        match &message.body {
            Reply::ReadyForQuery { status } => {
                return self.receive_ready(message, *status, now);
            },
            Reply::Error(error) => {
                return self.receive_error(message, error, now);
            },
            Reply::CommandComplete { command } => {
                self.receive_command(message, command, now);
                return Ok(());
            },
            Reply::ParameterStatus { name, value } => {
                self.receive_parameter(message, name, value, now);
                return Ok(());
            },
            _ => {},
        }
        self.stats.receive(message.len);
        match &message.body {
            Reply::CopyBoth => {
                self.streaming = true;
            },
            Reply::PortalSuspended => {
                self.statement_executed = true;
            },
            Reply::CopyIn => {
                self.stats.state(State::CopyMode);
            },
            Reply::ParseComplete => {
                self.stats.parse_complete();
            },
            Reply::BindComplete => {
                self.stats.bind_complete();
            },
            Reply::Malformed => {
                return Err(Error::MalformedMessage(message.code));
            },
            _ => {},
        }
        Ok(())
    }

    /// Take in what came from the server. The result is a message for the client, nothing if
    /// more has to be read first, or an error.
    pub fn read(&mut self, incoming: Incoming, now: Instant) -> (r: Result<Option<Message>, Error>)
        requires
            old(self).wf(),
        ensures
            final(self).wf(),
            read_in(*old(self), *final(self), incoming, now, r),
    {
        match incoming {
            Incoming::Simulated(message) => {
                let mut message = message;
                message.backend = self.id;
                Ok(Some(message))
            },
            Incoming::Arrived(message, relay) => {
                match relay {
                    Relay::Forward => {},
                    Relay::Hold => {
                        return Ok(None);
                    },
                    Relay::Refuse(err) => {
                        match err {
                            Error::ProtocolOutOfSync => {
                                // It is not known whether the connection can be saved.
                                self.stats.state(State::Error);
                            },
                            _ => {},
                        }
                        return Err(err);
                    },
                }
                let mut message = message;
                message.streaming = self.streaming;
                message.backend = self.id;
                match self.receive(&message, now) {
                    Ok(_) => Ok(Some(message)),
                    Err(err) => Err(err),
                }
            },
            Incoming::Broken(err) => {
                self.stats.state(State::Error);
                Err(err)
            },
        }
    }
}

/// What becomes of a message that a client sends.
#[derive(Debug)]
pub enum HandleResult<M> {
    /// It is not sent.
    Drop,
    /// A statement has to be prepared first.
    Prepend(M),
    /// It is sent as it is.
    Forward,
    /// Another message is sent in its place.
    Rewrite(M),
    /// A statement has to be prepared first, and another message is sent in its place.
    PrependRewrite { prepend: M, rewrite: M },
}

/// The messages to send for one message of a client.
pub open spec fn sent_for<M>(handled: HandleResult<M>, message: M) -> Seq<M> {
    match handled {
        HandleResult::Drop => Seq::<M>::empty(),
        HandleResult::Prepend(prepare) => seq![prepare, message],
        HandleResult::Forward => seq![message],
        HandleResult::Rewrite(other) => seq![other],
        HandleResult::PrependRewrite { prepend, rewrite } => seq![prepend, rewrite],
    }
}

/// The messages to send for one message of a client.
pub fn outgoing<M>(handled: HandleResult<M>, message: M) -> (r: Vec<M>)
    ensures
        r@ == sent_for(handled, message),
{
    let mut out: Vec<M> = Vec::new();
    match handled {
        HandleResult::Drop => {},
        HandleResult::Prepend(prepare) => {
            out.push(prepare);
            out.push(message);
        },
        HandleResult::Forward => {
            out.push(message);
        },
        HandleResult::Rewrite(other) => {
            out.push(other);
        },
        HandleResult::PrependRewrite { prepend, rewrite } => {
            out.push(prepend);
            out.push(rewrite);
        },
    }
    out
}

/// How far a request has got on its way to the server.
#[derive(Clone, Copy, Debug, PartialEq, Eq, Structural)]
pub enum SendStep {
    /// The request is about to be sent.
    Begin,
    /// One of its messages is about to be sent.
    BeginOne,
    /// A message of this many bytes was sent.
    Sent(usize),
    /// The network failed.
    Failed,
    /// The whole request is with the server.
    Complete,
}

/// The connection after a step of sending.
pub open spec fn after_send(s: Server, step: SendStep) -> Server {
    match step {
        SendStep::Begin => Server {
            sending_request: true,
            stats: s.stats.in_state(State::Active),
            ..s
        },
        SendStep::BeginOne => Server { stats: s.stats.in_state(State::Active), ..s },
        SendStep::Sent(bytes) => Server { stats: s.stats.with_sent(bytes), ..s },
        SendStep::Failed => Server { stats: s.stats.in_state(State::Error), ..s },
        SendStep::Complete => Server {
            sending_request: false,
            stats: s.stats.in_state(State::ReceivingData),
            ..s
        },
    }
}

/// The connection after all of these steps.
pub open spec fn after_sends(s: Server, steps: Seq<SendStep>) -> Server
    decreases steps.len(),
{
    if steps.len() == 0 {
        s
    } else {
        after_send(after_sends(s, steps.drop_last()), steps.last())
    }
}

impl Server {
    /// Take note of how far a request has got. From the beginning of a request until all of it is
    /// with the server, the connection cannot be recovered.
    pub fn send(&mut self, step: SendStep)
        ensures
            *final(self) == after_send(*old(self), step),
    {
        match step {
            SendStep::Begin => {
                self.sending_request = true;
                self.stats.state(State::Active);
            },
            SendStep::BeginOne => {
                self.stats.state(State::Active);
            },
            SendStep::Sent(bytes) => {
                self.stats.send(bytes);
            },
            SendStep::Failed => {
                self.stats.state(State::Error);
            },
            SendStep::Complete => {
                self.sending_request = false;
                self.stats.state(State::ReceivingData);
            },
        }
    }
}

/// A request that was begun and is not complete shows: however many messages were sent, the
/// connection says that a request is on its way.
pub proof fn unfinished_request_shows(s: Server, steps: Seq<SendStep>)
    requires
        forall|i: int| 0 <= i < steps.len() ==> (#[trigger] steps[i]) != SendStep::Complete,
    ensures
        after_sends(after_send(s, SendStep::Begin), steps).sending_request,
    decreases steps.len(),
{
    if steps.len() > 0 {
        assert forall|i: int| 0 <= i < steps.drop_last().len() implies (
        #[trigger] steps.drop_last()[i]) != SendStep::Complete by {
            assert(steps.drop_last()[i] == steps[i]);
        }
        unfinished_request_shows(s, steps.drop_last());
        assert(steps[steps.len() - 1] != SendStep::Complete);
    }
}

/// A connection that goes idle has ended its transaction, and nothing else makes it fit to be
/// given back: after any message, a connection that was not fit and now is has been told that the
/// server is ready and in no transaction.
pub proof fn only_ready_makes_idle(before: Server, after: Server, m: Message, now: Instant)
    requires
        received(before, after, m, now),
        before.stats.state != State::Idle,
        after.stats.state == State::Idle,
    ensures
        m.body == (Reply::ReadyForQuery { status: 'I' }),
        !after.in_transaction,
        !after.statement_executed,
        !after.streaming,
{
}

/// No message repairs a connection that is broken, but for the one that says the server is ready.
pub proof fn broken_until_ready(before: Server, after: Server, m: Message, now: Instant)
    requires
        received(before, after, m, now),
        before.stats.state == State::Error,
        !(m.body is ReadyForQuery),
        !(m.body is CopyIn),
        !(m.body is Error),
    ensures
        after.stats.state == State::Error,
{
}

/// Messages never change who the connection is, where it goes or what it announced at the start.
pub proof fn messages_keep_identity(before: Server, after: Server, m: Message, now: Instant)
    requires
        received(before, after, m, now),
    ensures
        after.id == before.id,
        after.addr == before.addr,
        after.params == before.params,
        after.max_age == before.max_age,
        after.stats.created_at == before.stats.created_at,
        after.stats.pool_id == before.stats.pool_id,
        after.disconnect_reason == before.disconnect_reason,
{
}

/// Answers to a batch of queries.
#[derive(Debug)]
pub struct Batch {
    /// Queries that were sent.
    pub expected: usize,
    /// Queries that were answered.
    pub ready: usize,
    /// The last error among the answers.
    pub error: Option<ErrorResponse>,
    /// All answers.
    pub messages: Vec<Message>,
}

/// How many of the messages say that the server is ready.
pub open spec fn ready_count(messages: Seq<Message>) -> nat
    decreases messages.len(),
{
    if messages.len() == 0 {
        0
    } else {
        ready_count(messages.drop_last()) + if messages.last().body is ReadyForQuery {
            1nat
        } else {
            0
        }
    }
}

/// The last error among the messages.
pub open spec fn last_error(messages: Seq<Message>) -> Option<ErrorResponse>
    decreases messages.len(),
{
    if messages.len() == 0 {
        None
    } else {
        match messages.last().body {
            Reply::Error(e) => Some(e),
            _ => last_error(messages.drop_last()),
        }
    }
}

/// `r` is what came of beginning a batch of so many queries.
pub open spec fn batch_begun(
    server: Server,
    queries: usize,
    r: Result<Option<Batch>, Error>,
) -> bool {
    &&& !server.synced() ==> r == Err::<Option<Batch>, Error>(Error::NotInSync)
    &&& server.synced() && queries == 0 ==> r == Ok::<Option<Batch>, Error>(None)
    &&& server.synced() && queries > 0 ==> (r matches Ok(Some(b)) && b.wf() && b.expected == queries
        && b.messages@.len() == 0)
}

impl Batch {
    /// The counts and the error are those of the messages.
    pub open spec fn wf(&self) -> bool {
        &&& self.ready == ready_count(self.messages@)
        &&& self.error == last_error(self.messages@)
        &&& self.ready <= self.expected
    }

    /// Begin a batch of so many queries. A connection in the middle of something else refuses it;
    /// an empty batch sends nothing, since it would throw the server out of step.
    pub fn begin(server: &Server, queries: usize) -> (r: Result<Option<Batch>, Error>)
        ensures
            batch_begun(*server, queries, r),
    {
        if !server.in_sync() {
            return Err(Error::NotInSync);
        }
        if queries == 0 {
            return Ok(None);
        }
        Ok(Some(Batch { expected: queries, ready: 0, error: None, messages: Vec::new() }))
    }

    /// Every query has been answered.
    pub fn complete(&self) -> (r: bool)
        requires
            self.wf(),
        ensures
            r == (ready_count(self.messages@) == self.expected),
    {
        self.ready >= self.expected
    }

    /// Take in an answer.
    pub fn push(&mut self, message: Message)
        requires
            old(self).wf(),
            old(self).ready < old(self).expected,
        ensures
            final(self).wf(),
            final(self).expected == old(self).expected,
            final(self).messages@ == old(self).messages@.push(message),
    {
        let ghost before = self.messages@;
        proof {
            assert(before.push(message).drop_last() == before);
        }
        match &message.body {
            Reply::ReadyForQuery { .. } => {
                self.ready = self.ready + 1;
            },
            Reply::Error(error) => {
                self.error = Some(error.clone());
            },
            _ => {},
        }
        self.messages.push(message);
    }

    /// The answers, or the last error among them.
    pub fn finish(self) -> (r: Result<Vec<Message>, Error>)
        requires
            self.wf(),
        ensures
            match last_error(self.messages@) {
                Some(e) => r == Err::<Vec<Message>, Error>(Error::ExecutionError(e)),
                None => r == Ok::<Vec<Message>, Error>(self.messages),
            },
    {
        match self.error {
            Some(err) => Err(Error::ExecutionError(err)),
            None => Ok(self.messages),
        }
    }
}

/// The first error among the messages.
pub open spec fn first_error(messages: Seq<Message>) -> Option<ErrorResponse>
    decreases messages.len(),
{
    if messages.len() == 0 {
        None
    } else {
        match messages[0].body {
            Reply::Error(e) => Some(e),
            _ => first_error(messages.skip(1)),
        }
    }
}

/// The messages, unless there is an error among them; then the first one.
pub fn check_messages(messages: Vec<Message>) -> (r: Result<Vec<Message>, Error>)
    ensures
        match first_error(messages@) {
            Some(e) => r == Err::<Vec<Message>, Error>(Error::ExecutionError(e)),
            None => r == Ok::<Vec<Message>, Error>(messages),
        },
{
    assert(messages@.skip(0) == messages@);
    for i in 0..messages.len()
        invariant
            first_error(messages@) == first_error(messages@.skip(i as int)),
    {
        assert(messages@.skip(i as int)[0] == messages@[i as int]);
        assert(messages@.skip(i as int).skip(1) == messages@.skip(i + 1));
        match &messages[i].body {
            Reply::Error(error) => {
                return Err(Error::ExecutionError(error.clone()));
            },
            _ => {},
        }
    }
    Ok(messages)
}

/// What came with the rows among the answers, in order.
pub open spec fn with_rows<B>(answers: Seq<(Message, B)>) -> Seq<B>
    decreases answers.len(),
{
    if answers.len() == 0 {
        Seq::empty()
    } else if answers.last().0.code == 'D' {
        with_rows(answers.drop_last()).push(answers.last().1)
    } else {
        with_rows(answers.drop_last())
    }
}

/// The rows that a query was answered with, unless there is an error among the answers; then the
/// first one.
pub fn fetch_all<B>(answers: Vec<(Message, B)>) -> (r: Result<Vec<B>, Error>)
    ensures
        match first_error(answers@.map_values(|a: (Message, B)| a.0)) {
            Some(e) => r == Err::<Vec<B>, Error>(Error::ExecutionError(e)),
            None => r matches Ok(rows) && rows@ == with_rows(answers@),
        },
{
    let ghost all = answers@;
    let ghost messages = all.map_values(|a: (Message, B)| a.0);
    assert(messages.skip(0) == messages);
    for i in 0..answers.len()
        invariant
            all == answers@,
            messages == all.map_values(|a: (Message, B)| a.0),
            first_error(messages) == first_error(messages.skip(i as int)),
    {
        assert(messages.skip(i as int)[0] == all[i as int].0);
        assert(messages.skip(i as int).skip(1) == messages.skip(i + 1));
        match &answers[i].0.body {
            Reply::Error(error) => {
                return Err(Error::ExecutionError(error.clone()));
            },
            _ => {},
        }
    }
    let mut rows: Vec<B> = Vec::new();
    assert(all.take(0) == Seq::<(Message, B)>::empty());
    for answer in it: answers
        invariant
            it.seq() == all,
            rows@ == with_rows(all.take(it.index() as int)),
    {
        proof {
            let i = it.index() as int;
            assert(all.take(i + 1).drop_last() == all.take(i));
            assert(all.take(i + 1).last() == all[i]);
        }
        let (message, body) = answer;
        if message.code == 'D' {
            rows.push(body);
        }
    }
    assert(all.take(all.len() as int) == all);
    Ok(rows)
}

/// What has to be done to bring a connection back between queries.
#[derive(Clone, Copy, Debug, PartialEq, Eq, Structural)]
pub enum DrainAction {
    /// Read a message.
    Read,
    /// Send `Sync`.
    SendSync,
    /// Nothing more.
    Done,
}

/// The next thing that has to be done to bring a connection back between queries. `settled` says
/// that everything the server had to say was read before.
pub open spec fn next_drain(s: Server, settled: bool, sync_sent: bool) -> DrainAction {
    if !settled && (s.prepared_statements.more_messages || s.streaming) {
        DrainAction::Read
    } else if s.synced() {
        DrainAction::Done
    } else if !sync_sent {
        DrainAction::SendSync
    } else {
        DrainAction::Read
    }
}

/// `after` and `r` are what an answer to a request to close statements leads to.
pub open spec fn close_answered(
    before: Server,
    after: Server,
    close: Seq<String>,
    answered: usize,
    reply: Message,
    r: Result<bool, Error>,
) -> bool {
    let (old_names, new_names) = (
        before.prepared_statements.names@,
        after.prepared_statements.names@,
    );
    &&& after == (Server {
        prepared_statements: PreparedStatements {
            names: after.prepared_statements.names,
            ..before.prepared_statements
        },
        ..before
    })
    &&& if answered < close.len() {
        match reply.body {
            Reply::CloseComplete => {
                &&& r == Ok::<bool, Error>(false)
                &&& forall|n: Seq<char>| #[trigger]
                    has_name(new_names, n) <==> n != close[answered as int]@ && has_name(
                        old_names,
                        n,
                    )
                &&& is_without(old_names, new_names, close[answered as int]@)
            },
            Reply::Error(e) => r == Err::<bool, Error>(Error::PreparedStatementError(e)) && after
                == before,
            _ => r == Err::<bool, Error>(Error::UnexpectedMessage(reply.code)) && after == before,
        }
    } else {
        &&& after == before
        &&& r == if reply.body is ReadyForQuery {
            Ok::<bool, Error>(true)
        } else {
            Err(Error::UnexpectedMessage(reply.code))
        }
    }
}

/// `after` and `r` are what came of asking what is left to do to bring a connection back between
/// queries.
pub open spec fn drained(
    before: Server,
    after: Server,
    settled: bool,
    sync_sent: bool,
    r: DrainAction,
) -> bool {
    &&& r == next_drain(before, settled, sync_sent)
    &&& after == if r == DrainAction::Done {
        Server { re_synced: true, ..before }
    } else {
        before
    }
    &&& r == DrainAction::Done ==> after.synced()
}

/// `after` and `r` are what came of rolling a transaction back.
pub open spec fn rolled_back(
    before: Server,
    after: Server,
    executed: bool,
    r: Result<(), Error>,
) -> bool {
    &&& after == (Server {
        stats: if executed {
            before.stats.with_rollback()
        } else {
            before.stats
        },
        client_params: after.client_params,
        ..before
    })
    &&& after.client_params.params == before.client_params.params
    &&& after.client_params.transaction@.len() == 0
    &&& r == if before.is_done() {
        Ok::<(), Error>(())
    } else {
        Err(Error::RollbackFailed)
    }
}

/// The statement that ends the open transaction, if there is one.
pub open spec fn ends_transaction(s: Server, query: Option<Seq<char>>) -> bool {
    match query {
        Some(query) => s.in_transaction && query == "ROLLBACK"@,
        None => !s.in_transaction,
    }
}

impl Server {
    /// Say what has to be done next to bring the connection back between queries: read until the
    /// server has nothing more to say, then ask it to start over and read until it has. Once
    /// nothing more has to be done, the connection counts as drained.
    pub fn drain(&mut self, settled: bool, sync_sent: bool) -> (r: DrainAction)
        ensures
            drained(*old(self), *final(self), settled, sync_sent, r),
    {
        if !settled && self.has_more_messages() {
            return DrainAction::Read;
        }
        if !self.in_sync() {
            if !sync_sent {
                return DrainAction::SendSync;
            }
            return DrainAction::Read;
        }
        self.re_synced = true;
        DrainAction::Done
    }

    /// The statement that ends the open transaction, if there is one.
    pub fn rollback_query(&self) -> (r: Option<String>)
        ensures
            ends_transaction(
                *self,
                match r {
                    Some(query) => Some(query@),
                    None => None,
                },
            ),
    {
        if self.in_transaction() {
            Some(owned("ROLLBACK"))
        } else {
            None
        }
    }

    /// Take note that the transaction was rolled back, if there was one (`executed`), and forget
    /// the settings that it made. The connection has to be free by now.
    pub fn rollback(&mut self, executed: bool) -> (r: Result<(), Error>)
        requires
            old(self).wf(),
        ensures
            final(self).wf(),
            rolled_back(*old(self), *final(self), executed, r),
    {
        if executed {
            self.stats.rollback();
        }
        self.transaction_params_hook(true);
        if !self.done() {
            Err(Error::RollbackFailed)
        } else {
            Ok(())
        }
    }

    /// Take note that the connection answered a health check.
    pub fn healthcheck(&mut self, now: Instant)
        ensures
            *final(self) == (Server {
                stats: old(self).stats.with_healthcheck(now),
                ..*old(self)
            }),
    {
        self.stats.healthcheck(now);
    }

    /// Take note of the statements that the server says are prepared.
    pub fn sync_prepared_statements(&mut self, names: &Vec<String>)
        requires
            old(self).wf(),
        ensures
            final(self).wf(),
            !final(self).sync_prepared,
            *final(self) == (Server {
                prepared_statements: PreparedStatements {
                    names: final(self).prepared_statements.names,
                    ..old(self).prepared_statements
                },
                stats: Stats {
                    prepared_statements: final(self).prepared_statements.names@.len() as usize,
                    ..old(self).stats
                },
                sync_prepared: false,
                ..*old(self)
            }),
            forall|n: Seq<char>| #[trigger]
                has_name(final(self).prepared_statements.names@, n) <==> has_name(names@, n)
                    || has_name(old(self).prepared_statements.names@, n),
            old(self).prepared_statements.names@.len()
                <= final(self).prepared_statements.names@.len(),
            final(self).prepared_statements.names@.take(
                old(self).prepared_statements.names@.len() as int,
            ) == old(self).prepared_statements.names@,
            views(final(self).prepared_statements.names@) == with_names(
                views(old(self).prepared_statements.names@),
                views(names@),
            ),
    {
        self.prepared_statements.prepared_all(names);
        let count: usize = self.prepared_statements.len();
        self.stats.set_prepared_statements(count);
        self.sync_prepared = false;
    }

    /// Forget the oldest prepared statements beyond the capacity and say which ones have to be
    /// closed.
    pub fn ensure_prepared_capacity(&mut self) -> (r: Vec<String>)
        requires
            old(self).wf(),
        ensures
            final(self).wf(),
            old(self).prepared_statements.names@ == r@ + final(self).prepared_statements.names@,
            r@.len() == if old(self).prepared_statements.names@.len()
                > old(self).prepared_statements.capacity {
                old(self).prepared_statements.names@.len() - old(self).prepared_statements.capacity
            } else {
                0
            },
            *final(self) == (Server {
                prepared_statements: PreparedStatements {
                    names: final(self).prepared_statements.names,
                    ..old(self).prepared_statements
                },
                stats: old(self).stats.with_closed(
                    r@.len() as usize,
                    final(self).prepared_statements.names@.len() as usize,
                ),
                ..*old(self)
            }),
    {
        let close = self.prepared_statements.ensure_capacity();
        self.stats.close_many(close.len(), self.prepared_statements.len());
        close
    }

    /// Take in the next answer to a request to close statements. Each statement is answered in
    /// turn, and the server is ready after the last one: `true` then.
    pub fn close_many(&mut self, close: &Vec<String>, answered: usize, reply: &Message) -> (r:
        Result<bool, Error>)
        requires
            old(self).wf(),
            answered <= close@.len(),
        ensures
            final(self).wf(),
            close_answered(*old(self), *final(self), close@, answered, *reply, r),
    {
        if answered < close.len() {
            match &reply.body {
                Reply::CloseComplete => {
                    let _ = self.prepared_statements.remove(close[answered].as_str());
                    Ok(false)
                },
                Reply::Error(error) => Err(Error::PreparedStatementError(error.clone())),
                _ => Err(Error::UnexpectedMessage(reply.code)),
            }
        } else {
            match &reply.body {
                Reply::ReadyForQuery { .. } => Ok(true),
                _ => Err(Error::UnexpectedMessage(reply.code)),
            }
        }
    }
}

/// Once a drained server has nothing more to say and was asked to start over, every answer short of
/// readiness asks for another one, and readiness ends the drain.
pub proof fn drain_ends_when_ready(before: Server, after: Server, m: Message, now: Instant)
    requires
        received(before, after, m, now),
        failure(m) is None,
        m.body is ReadyForQuery,
    ensures
        next_drain(after, true, true) == DrainAction::Done,
{
}

/// The message says that a statement was executed, as far as it was asked for.
pub open spec fn ends_statement(m: Message) -> bool {
    m.body is CommandComplete || m.body is PortalSuspended
}

/// Among what came from the server and was handed on, a statement was executed since the server was
/// last ready. Messages that the pooler makes up do not count.
pub open spec fn executed_since_ready(
    incoming: Seq<Incoming>,
    replies: Seq<Result<Option<Message>, Error>>,
) -> bool
    decreases replies.len(),
{
    if replies.len() == 0 {
        false
    } else {
        let before = executed_since_ready(incoming.drop_last(), replies.drop_last());
        match (incoming.last(), replies.last()) {
            (Incoming::Arrived(_, _), Ok(Some(m))) => if m.body is ReadyForQuery {
                false
            } else {
                ends_statement(m) || before
            },
            _ => before,
        }
    }
}

/// Among the messages that were handed on, whoever made them, one says that a statement was
/// executed, and none after it that the server is ready.
pub open spec fn told_since_ready(replies: Seq<Result<Option<Message>, Error>>) -> bool
    decreases replies.len(),
{
    if replies.len() == 0 {
        false
    } else {
        match replies.last() {
            Ok(Some(m)) => if m.body is ReadyForQuery {
                false
            } else {
                ends_statement(m) || told_since_ready(replies.drop_last())
            },
            _ => told_since_ready(replies.drop_last()),
        }
    }
}

/// The pooler made up no message that says that a statement was executed or that the server is
/// ready.
pub open spec fn made_up_none(incoming: Seq<Incoming>) -> bool {
    forall|i: int|
        0 <= i < incoming.len() ==> (#[trigger] incoming[i] matches Incoming::Simulated(m)
            ==> !ends_statement(m) && !(m.body is ReadyForQuery))
}

/// The connection was read from as often as there are replies. Each reply is what came of reading in
/// `before[i]`, which led to `after[i]`. Anything can happen between two reads, before the first one
/// and after the last one, which leads to `last`, as long as it leaves the mark of an executed
/// statement alone, as everything but reading does.
pub open spec fn is_history(
    before: Seq<Server>,
    after: Seq<Server>,
    last: Server,
    incoming: Seq<Incoming>,
    times: Seq<Instant>,
    replies: Seq<Result<Option<Message>, Error>>,
) -> bool {
    &&& before.len() == replies.len()
    &&& after.len() == replies.len()
    &&& incoming.len() == replies.len()
    &&& times.len() == replies.len()
    &&& forall|i: int|
        0 <= i < replies.len() ==> #[trigger] read_in(
            before[i],
            after[i],
            incoming[i],
            times[i],
            replies[i],
        )
    &&& forall|i: int|
        0 < i < replies.len() ==> (#[trigger] before[i]).statement_executed == after[i
            - 1].statement_executed
    &&& replies.len() > 0 ==> !before[0].statement_executed && last.statement_executed
        == after.last().statement_executed
    &&& replies.len() == 0 ==> !last.statement_executed
}

proof fn lemma_history(
    before: Seq<Server>,
    after: Seq<Server>,
    last: Server,
    incoming: Seq<Incoming>,
    times: Seq<Instant>,
    replies: Seq<Result<Option<Message>, Error>>,
)
    requires
        is_history(before, after, last, incoming, times, replies),
    ensures
        last.statement_executed == executed_since_ready(incoming, replies),
        made_up_none(incoming) ==> executed_since_ready(incoming, replies) == told_since_ready(
            replies,
        ),
    decreases replies.len(),
{
    let n = replies.len() - 1;
    if n >= 0 {
        let (b, a, c, t, r) = (
            before.drop_last(),
            after.drop_last(),
            incoming.drop_last(),
            times.drop_last(),
            replies.drop_last(),
        );
        assert forall|i: int| 0 <= i < r.len() implies #[trigger] read_in(
            b[i],
            a[i],
            c[i],
            t[i],
            r[i],
        ) by {
            assert(read_in(before[i], after[i], incoming[i], times[i], replies[i]));
        }
        assert forall|i: int| 0 < i < r.len() implies (#[trigger] b[i]).statement_executed == a[i
            - 1].statement_executed by {
            assert(before[i].statement_executed == after[i - 1].statement_executed);
        }
        assert(before[n].statement_executed == if n > 0 {
            after[n - 1].statement_executed
        } else {
            false
        });
        if made_up_none(incoming) {
            assert forall|i: int| 0 <= i < c.len() implies (
            #[trigger] c[i] matches Incoming::Simulated(m) ==> !ends_statement(m) && !(
            m.body is ReadyForQuery)) by {
                assert(c[i] == incoming[i]);
            }
        }
        lemma_history(b, a, before[n], c, t, r);
        assert(read_in(before[n], after[n], incoming[n], times[n], replies[n]));
        assert(made_up_none(incoming) ==> (incoming[n] matches Incoming::Simulated(m)
            ==> !ends_statement(m) && !(m.body is ReadyForQuery)));
    }
}

/// A connection can be given back exactly when all requests were answered, it is not inside of a
/// transaction, and the server has not said that a statement was executed since it was last ready,
/// whatever else was read from it and whatever was done with it meanwhile.
pub proof fn done_follows_the_history(
    before: Seq<Server>,
    after: Seq<Server>,
    last: Server,
    incoming: Seq<Incoming>,
    times: Seq<Instant>,
    replies: Seq<Result<Option<Message>, Error>>,
)
    requires
        is_history(before, after, last, incoming, times, replies),
    ensures
        last.is_done() <==> last.prepared_statements.done && !last.in_transaction
            && !executed_since_ready(incoming, replies),
{
    lemma_history(before, after, last, incoming, times, replies);
}

/// A connection can be given back exactly when all requests were answered, it is not inside of a
/// transaction, and reading has not returned a message that a statement was executed since it last
/// returned one that the server is ready. That is so whatever else was read and done meanwhile, as
/// long as the pooler makes up no message of these kinds itself.
pub proof fn done_follows_what_was_read(
    before: Seq<Server>,
    after: Seq<Server>,
    last: Server,
    incoming: Seq<Incoming>,
    times: Seq<Instant>,
    replies: Seq<Result<Option<Message>, Error>>,
)
    requires
        is_history(before, after, last, incoming, times, replies),
        made_up_none(incoming),
    ensures
        last.is_done() <==> last.prepared_statements.done && !last.in_transaction
            && !told_since_ready(replies),
{
    lemma_history(before, after, last, incoming, times, replies);
}

} // verus!
