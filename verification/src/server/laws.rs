//! What holds of a server connection whatever the server says, told by what can be seen of it.

#[allow(unused_imports)]
use crate::net::{lookup, Parameters};
#[allow(unused_imports)]
use crate::net::BackendKeyData;
#[allow(unused_imports)]
use crate::pool::config::Address;
#[allow(unused_imports)]
use crate::server::connection::{asks_replication, jittered, transaction_over, Server};
#[allow(unused_imports)]
use crate::server::error::Error;
#[allow(unused_imports)]
use crate::server::link::transaction_copied;
#[allow(unused_imports)]
use crate::server::stats::Stats;
#[allow(unused_imports)]
use crate::server::session::{
    after_send, batch_begun, close_answered, drained, ends_transaction, Batch, failure, fatal, first_error, last_error, next_drain, read_in,
    ready_count, received, rolled_back, sent_for, with_rows, DrainAction, HandleResult, Incoming,
    Message, Relay, Reply, SendStep,
};
#[allow(unused_imports)]
use crate::server::stats::{Counts, State};
#[allow(unused_imports)]
use crate::time::{Duration, Instant, MAX_NANOS};
use vstd::prelude::*;

verus! {

/// The message says that the server is ready, with this status.
pub open spec fn is_ready(m: Message, status: char) -> bool {
    m.body matches Reply::ReadyForQuery { status: s } && s == status
}

/// Only the server's word that it is idle ends a transaction, and only its word that it is in one
/// begins one. A failed transaction is still open.
pub proof fn only_the_server_ends_a_transaction(
    before: Server,
    after: Server,
    m: Message,
    now: Instant,
)
    requires
        received(before, after, m, now),
    ensures
        before.in_transaction && !after.in_transaction ==> is_ready(m, 'I'),
        !before.in_transaction && after.in_transaction ==> is_ready(m, 'T'),
        is_ready(m, 'I') ==> !after.in_transaction,
        is_ready(m, 'T') ==> after.in_transaction,
        is_ready(m, 'E') ==> after.in_transaction == before.in_transaction,
{
}

/// A connection on which a transaction is open is not done, has to be rolled back before it serves
/// anybody else, and cannot go back to its pool as it is.
pub proof fn open_transactions_are_rolled_back(
    before: Server,
    after: Server,
    m: Message,
    now: Instant,
    query: Option<Seq<char>>,
)
    requires
        received(before, after, m, now),
        before.in_transaction,
        !is_ready(m, 'I'),
        ends_transaction(after, query),
    ensures
        !after.is_done(),
        query == Some("ROLLBACK"@),
        before.stats.state != State::Idle ==> after.stats.state != State::Idle,
{
}

/// What the connection is doing follows from what the server says: each status of a server that is
/// ready has its own state, an unknown one breaks the connection, an error after which the server
/// hangs up leads to closing it, rows to be copied in are a state of their own, and nothing else
/// changes the state.
pub proof fn states_follow_messages(before: Server, after: Server, m: Message, now: Instant)
    requires
        received(before, after, m, now),
    ensures
        match m.body {
            Reply::ReadyForQuery { status } => after.stats.state == if status == 'I' {
                State::Idle
            } else if status == 'T' {
                State::IdleInTransaction
            } else if status == 'E' {
                State::TransactionError
            } else {
                State::Error
            },
            Reply::Error(e) => after.stats.state == if e.severity@ == "FATAL"@ || e.severity@
                == "PANIC"@ {
                State::ForceClose
            } else {
                before.stats.state
            },
            Reply::CopyIn => after.stats.state == State::CopyMode,
            _ => after.stats.state == before.stats.state,
        },
        after.streaming == match m.body {
            Reply::CopyBoth => true,
            Reply::ReadyForQuery { status } => before.streaming && status != 'I' && status != 'T'
                && status != 'E',
            _ => before.streaming,
        },
        after.schema_changed == match m.body {
            Reply::Error(e) => e.code@ == "0A000"@,
            _ => before.schema_changed,
        },
{
}

/// A statement counts as executed from when the server says so, or says that a portal has more rows,
/// until it is ready again.
pub proof fn executed_statements_show(before: Server, after: Server, m: Message, now: Instant)
    requires
        received(before, after, m, now),
    ensures
        m.body is CommandComplete || m.body is PortalSuspended ==> after.statement_executed,
        is_ready(m, 'I') || is_ready(m, 'T') || is_ready(m, 'E') ==> !after.statement_executed,
        before.statement_executed && !after.statement_executed ==> m.body is ReadyForQuery,
        !before.statement_executed && after.statement_executed ==> m.body is CommandComplete
            || m.body is PortalSuspended,
{
}

/// Commands that touch prepared statements or settings behind the pooler's back are noticed: what
/// they drop is forgotten, what they may have changed is looked up, and other commands change
/// neither.
pub proof fn commands_are_noticed(
    before: Server,
    after: Server,
    m: Message,
    now: Instant,
    command: String,
)
    requires
        received(before, after, m, now),
        m.body == (Reply::CommandComplete { command }),
    ensures
        command@ == "PREPARE"@ || command@ == "DEALLOCATE"@ ==> after.sync_prepared,
        command@ == "DEALLOCATE ALL"@ || command@ == "DISCARD ALL"@
            ==> after.prepared_statements.names@.len() == 0,
        command@ == "DISCARD ALL"@ || command@ == "RESET"@ ==> after.client_params.params@.len()
            == 0 && after.client_params.transaction@.len() == 0,
        command@ != "PREPARE"@ && command@ != "DEALLOCATE"@ ==> after.sync_prepared
            == before.sync_prepared,
        command@ != "DEALLOCATE ALL"@ && command@ != "DISCARD ALL"@
            ==> after.prepared_statements.names == before.prepared_statements.names,
        command@ != "DISCARD ALL"@ && command@ != "RESET"@ ==> after.client_params
            == before.client_params,
{
    reveal_strlit("PREPARE");
    reveal_strlit("DEALLOCATE");
    reveal_strlit("DEALLOCATE ALL");
    reveal_strlit("DISCARD ALL");
    reveal_strlit("RESET");
    assert("PREPARE"@.len() == 7 && "DEALLOCATE"@.len() == 10 && "DEALLOCATE ALL"@.len() == 14
        && "DISCARD ALL"@.len() == 11 && "RESET"@.len() == 5);
}

/// Only messages about commands change prepared statements or the client's settings, and only
/// announced settings change what counts as changed.
pub proof fn other_messages_leave_settings_alone(
    before: Server,
    after: Server,
    m: Message,
    now: Instant,
)
    requires
        received(before, after, m, now),
    ensures
        !(m.body is CommandComplete) ==> after.prepared_statements == before.prepared_statements
            && after.client_params == before.client_params && after.sync_prepared
            == before.sync_prepared,
        !(m.body is ParameterStatus) ==> after.changed_params == before.changed_params,
        m.body matches Reply::ParameterStatus { name, value } ==> after.changed_params.value(name@)
            == Some(value@),
{
}

/// The number, or the largest one a counter can hold.
pub open spec fn at_most(n: int) -> int {
    if n <= usize::MAX {
        n
    } else {
        usize::MAX as int
    }
}

/// What the messages of a server are counted as: bytes of every message, a query for each time that
/// the server is ready, a transaction for each that ended or failed, an error for each that it
/// reports, statements prepared and portals bound. Both counts are kept alike.
pub proof fn messages_are_counted(before: Server, after: Server, m: Message, now: Instant)
    requires
        received(before, after, m, now),
    ensures
        counted_alike(before.stats.total, after.stats.total, m),
        counted_alike(before.stats.last_checkout, after.stats.last_checkout, m),
        after.stats.last_used == if is_ready(m, 'I') || is_ready(m, 'E') {
            now
        } else {
            before.stats.last_used
        },
        after.stats.created_at == before.stats.created_at,
        after.stats.last_healthcheck == before.stats.last_healthcheck,
{
}

/// The counts after a message.
pub open spec fn counted_alike(before: Counts, after: Counts, m: Message) -> bool {
    &&& after.bytes_received == at_most(before.bytes_received + m.len)
    &&& after.queries == at_most(
        before.queries + if m.body is ReadyForQuery {
            1int
        } else {
            0
        },
    )
    &&& after.transactions == at_most(
        before.transactions + if is_ready(m, 'I') || is_ready(m, 'E') {
            1int
        } else {
            0
        },
    )
    &&& after.errors == at_most(
        before.errors + if m.body is Error {
            1int
        } else {
            0
        },
    )
    &&& after.parse == at_most(
        before.parse + if m.body is ParseComplete {
            1int
        } else {
            0
        },
    )
    &&& after.bind == at_most(
        before.bind + if m.body is BindComplete {
            1int
        } else {
            0
        },
    )
    &&& after.bytes_sent == before.bytes_sent && after.rollbacks == before.rollbacks
        && after.healthchecks == before.healthchecks
}

/// Reading hands a message on unless the pooler keeps it, and fails if the network does, if the
/// message should not have come, if it makes no sense, if the server is about to hang up, or if the
/// server is in a state that nobody knows. What is handed on says what came, from this connection.
pub proof fn reading_hands_messages_on(
    before: Server,
    after: Server,
    incoming: Incoming,
    now: Instant,
    r: Result<Option<Message>, Error>,
)
    requires
        read_in(before, after, incoming, now, r),
    ensures
        r matches Ok(Some(m)) ==> m.backend == before.id && match incoming {
            Incoming::Simulated(given) => m.body == given.body && m.code == given.code && after
                == before,
            Incoming::Arrived(given, relay) => relay is Forward && m.body == given.body && m.code
                == given.code && m.len == given.len && m.streaming == before.streaming,
            Incoming::Broken(_) => false,
        },
        r matches Ok(None) ==> after == before && (incoming matches Incoming::Arrived(_, relay)
            && relay is Hold),
        incoming matches Incoming::Broken(e) ==> r == Err::<Option<Message>, Error>(e)
            && after.stats.state == State::Error,
        incoming matches Incoming::Arrived(given, Relay::Forward) ==> (r is Err <==> match given.body {
            Reply::ReadyForQuery { status } => status != 'I' && status != 'T' && status != 'E',
            Reply::Error(e) => e.severity@ == "FATAL"@ || e.severity@ == "PANIC"@,
            Reply::Malformed => true,
            _ => false,
        }),
{
}

/// A connection that is out of step is broken: nothing that comes when it should not leaves it in use
/// if the protocol lost its footing.
pub proof fn out_of_step_is_broken(
    before: Server,
    after: Server,
    given: Message,
    e: Error,
    now: Instant,
    r: Result<Option<Message>, Error>,
)
    requires
        read_in(before, after, Incoming::Arrived(given, Relay::Refuse(e)), now, r),
    ensures
        e is ProtocolOutOfSync ==> after.stats.state == State::Error,
        !(e is ProtocolOutOfSync) ==> after == before,
        r == Err::<Option<Message>, Error>(e),
{
}

/// A connection is between queries.
pub open spec fn between_queries(s: Server) -> bool {
    s.stats.state == State::Idle || s.stats.state == State::IdleInTransaction || s.stats.state
        == State::TransactionError
}

/// Bringing a connection back between queries: what the server still has to say is read first, then
/// it is asked once to start over, and read until it is ready. Nothing is done once it is.
pub proof fn draining_reads_until_ready(s: Server, settled: bool, sync_sent: bool)
    ensures
        !settled && (s.streaming || s.prepared_statements.more_messages) ==> next_drain(
            s,
            settled,
            sync_sent,
        ) == DrainAction::Read,
        next_drain(s, settled, sync_sent) == DrainAction::Done ==> between_queries(s),
        between_queries(s) && (settled || !s.streaming && !s.prepared_statements.more_messages)
            ==> next_drain(s, settled, sync_sent) == DrainAction::Done,
        next_drain(s, settled, sync_sent) == DrainAction::SendSync ==> !sync_sent
            && !between_queries(s),
        settled && !between_queries(s) && !sync_sent ==> next_drain(s, settled, sync_sent)
            == DrainAction::SendSync,
        settled && !between_queries(s) && sync_sent ==> next_drain(s, settled, sync_sent)
            == DrainAction::Read,
{
}

/// A rollback forgets what the transaction set, keeps what was set before, and succeeds exactly if
/// nothing more is expected of the server and it is in no transaction. It is counted if it was
/// executed.
pub proof fn rollbacks_forget_the_transaction(
    before: Server,
    after: Server,
    executed: bool,
    r: Result<(), Error>,
    name: Seq<char>,
)
    requires
        rolled_back(before, after, executed, r),
    ensures
        after.client_params.value(name) == before.client_params.value(name),
        after.client_params.pending(name) is None,
        r is Ok <==> !before.in_transaction && before.prepared_statements.done
            && !before.statement_executed,
        after.stats.total.rollbacks == at_most(
            before.stats.total.rollbacks + if executed {
                1int
            } else {
                0
            },
        ),
        after.stats.state == before.stats.state && after.in_transaction == before.in_transaction,
{
}

/// The end of a transaction: after a commit a setting has the value that the transaction gave it, if
/// it gave it one, else the one from before; after a rollback always the one from before.
pub proof fn transactions_decide_on_settings(
    before: Server,
    after: Server,
    rollback: bool,
    name: Seq<char>,
)
    requires
        transaction_over(before, after, rollback),
    ensures
        after.client_params.pending(name) is None,
        rollback || before.client_params.pending(name) is None ==> after.client_params.value(name)
            == before.client_params.value(name),
        !rollback && before.client_params.pending(name) is Some ==> after.client_params.value(name)
            == before.client_params.pending(name),
{
}

/// The value of a setting is the one that was written last, and only a setting that was written has
/// one. `i` is any place in the list.
pub proof fn the_last_value_counts(params: Seq<crate::net::Parameter>, name: Seq<char>, i: int)
    requires
        0 <= i < params.len(),
    ensures
        params[i].name@ == name ==> lookup(params, name) is Some,
        lookup(params, name) matches Some(v) ==> exists|k: int|
            {
                &&& 0 <= k < params.len()
                &&& (#[trigger] params[k]).name@ == name && params[k].value@ == v
                &&& params[i].name@ == name ==> i <= k
            },
    decreases params.len(),
{
    let n = params.len() - 1;
    let short = params.drop_last();
    if params[n].name@ != name {
        if n > 0 {
            let j = if i < n {
                i
            } else {
                0
            };
            the_last_value_counts(short, name, j);
            if lookup(params, name) is Some {
                let k = choose|k: int|
                    {
                        &&& 0 <= k < short.len()
                        &&& (#[trigger] short[k]).name@ == name && Some(short[k].value@) == lookup(
                            params,
                            name,
                        )
                        &&& short[j].name@ == name ==> j <= k
                    };
                assert(params[k] == short[k]);
            }
        }
    } else {
        assert(params[n].name@ == name);
    }
}

/// What is sent for a message of a client: nothing if it is dropped, else the message or what stands
/// in for it, last; a statement that has to be prepared goes before it.
pub proof fn the_message_goes_last<M>(handled: HandleResult<M>, message: M)
    ensures
        sent_for(handled, message).len() == match handled {
            HandleResult::Drop => 0nat,
            HandleResult::Forward | HandleResult::Rewrite(_) => 1,
            _ => 2,
        },
        handled is Forward || handled is Prepend ==> sent_for(handled, message).last() == message,
        handled matches HandleResult::Rewrite(other) ==> sent_for(handled, message).last() == other,
        handled matches HandleResult::Prepend(first) ==> sent_for(handled, message)[0] == first,
        handled matches HandleResult::PrependRewrite { prepend, rewrite } ==> sent_for(
            handled,
            message,
        )[0] == prepend && sent_for(handled, message).last() == rewrite,
{
}

/// A batch of queries fails with the last error among its answers, and succeeds if there is none.
/// `i` is any answer.
pub proof fn the_last_error_counts(messages: Seq<Message>, i: int)
    requires
        0 <= i < messages.len(),
    ensures
        messages[i].body is Error ==> last_error(messages) is Some,
        last_error(messages) matches Some(e) ==> exists|k: int|
            {
                &&& 0 <= k < messages.len()
                &&& (#[trigger] messages[k]).body == Reply::Error(e)
                &&& messages[i].body is Error ==> i <= k
            },
    decreases messages.len(),
{
    let n = messages.len() - 1;
    let short = messages.drop_last();
    if !(messages[n].body is Error) {
        if n > 0 {
            let j = if i < n {
                i
            } else {
                0
            };
            the_last_error_counts(short, j);
            if last_error(messages) is Some {
                let e = last_error(messages)->Some_0;
                let k = choose|k: int|
                    {
                        &&& 0 <= k < short.len()
                        &&& (#[trigger] short[k]).body == Reply::Error(e)
                        &&& short[j].body is Error ==> j <= k
                    };
                assert(messages[k] == short[k]);
            }
        }
    } else {
        assert(messages[n].body is Error);
    }
}

/// Answers that are checked fail with the first error among them. `i` is any answer.
pub proof fn the_first_error_counts(messages: Seq<Message>, i: int)
    requires
        0 <= i < messages.len(),
    ensures
        messages[i].body is Error ==> first_error(messages) is Some,
        first_error(messages) matches Some(e) ==> exists|k: int|
            {
                &&& 0 <= k < messages.len()
                &&& (#[trigger] messages[k]).body == Reply::Error(e)
                &&& messages[i].body is Error ==> k <= i
            },
    decreases messages.len(),
{
    let rest = messages.skip(1);
    if !(messages[0].body is Error) {
        if rest.len() > 0 {
            let j = if i > 0 {
                i - 1
            } else {
                0
            };
            the_first_error_counts(rest, j);
            assert(rest[j] == messages[j + 1]);
            if first_error(messages) is Some {
                let e = first_error(messages)->Some_0;
                let k = choose|k: int|
                    {
                        &&& 0 <= k < rest.len()
                        &&& (#[trigger] rest[k]).body == Reply::Error(e)
                        &&& rest[j].body is Error ==> k <= j
                    };
                assert(messages[k + 1] == rest[k]);
            }
        }
    } else {
        assert(messages[0].body is Error);
    }
}

/// As many queries were answered as the server said that it is ready; each answer adds at most one.
pub proof fn each_ready_answers_a_query(messages: Seq<Message>, m: Message)
    ensures
        ready_count(messages.push(m)) == ready_count(messages) + if m.body is ReadyForQuery {
            1nat
        } else {
            0
        },
        ready_count(Seq::<Message>::empty()) == 0,
{
    assert(messages.push(m).drop_last() == messages);
}

/// Every row among the answers is fetched, in order, and nothing else is.
pub proof fn rows_are_fetched_in_order<B>(answers: Seq<(Message, B)>, answer: (Message, B))
    ensures
        with_rows(answers.push(answer)) == if answer.0.code == 'D' {
            with_rows(answers).push(answer.1)
        } else {
            with_rows(answers)
        },
        with_rows(Seq::<(Message, B)>::empty()) == Seq::<B>::empty(),
{
    assert(answers.push(answer).drop_last() == answers);
}

/// A request that is on its way shows from its beginning until all of it is with the server, and only
/// a failure of the network breaks the connection on the way. Bytes that were sent are counted.
pub proof fn sending_shows(s: Server, step: SendStep)
    ensures
        after_send(s, step).sending_request == match step {
            SendStep::Begin => true,
            SendStep::Complete => false,
            _ => s.sending_request,
        },
        after_send(s, step).stats.state == State::Error ==> step == SendStep::Failed
            || s.stats.state == State::Error,
        step == SendStep::Failed ==> after_send(s, step).stats.state == State::Error,
        step == SendStep::Begin || step == SendStep::BeginOne ==> after_send(s, step).stats.state
            == State::Active,
        step == SendStep::Complete ==> after_send(s, step).stats.state == State::ReceivingData,
        step matches SendStep::Sent(n) ==> after_send(s, step).stats.total.bytes_sent == at_most(
            s.stats.total.bytes_sent + n,
        ) && after_send(s, step).stats.last_checkout.bytes_sent == at_most(
            s.stats.last_checkout.bytes_sent + n,
        ),
        after_send(s, step).in_transaction == s.in_transaction,
{
}

/// The lifetime of a connection with jitter is the base lifetime moved by so many milliseconds, as
/// far as there are such spans of time.
pub proof fn jitter_moves_the_lifetime(base: Duration, offset_ms: int)
    requires
        base.nanos <= MAX_NANOS,
    ensures
        0 <= base.nanos + offset_ms * 1_000_000 <= MAX_NANOS ==> jittered(base, offset_ms)
            == base.nanos + offset_ms * 1_000_000,
        base.nanos + offset_ms * 1_000_000 < 0 ==> jittered(base, offset_ms) == 0,
        base.nanos + offset_ms * 1_000_000 > MAX_NANOS ==> jittered(base, offset_ms) == MAX_NANOS,
{
}

/// What a client's open transaction has set is set on the connection, too, inside of its transaction;
/// nothing outside of it changes.
pub proof fn transaction_settings_are_copied(
    before: Parameters,
    after: Parameters,
    client: Parameters,
    name: Seq<char>,
)
    requires
        transaction_copied(before, after, client),
    ensures
        client.pending(name) is Some ==> after.pending(name) == client.pending(name),
        client.pending(name) is None ==> after.pending(name) == before.pending(name),
        after.value(name) == before.value(name),
{
}

/// A health check is remembered with its time, and counted once, as are a rollback, a cleaned session
/// and closed statements.
pub proof fn upkeep_is_counted(s: Stats, now: Instant, n: usize, left: usize)
    ensures
        s.with_healthcheck(now).last_healthcheck == Some(now),
        s.with_healthcheck(now).total.healthchecks == at_most(s.total.healthchecks + 1),
        s.with_healthcheck(now).last_checkout.healthchecks == at_most(
            s.last_checkout.healthchecks + 1,
        ),
        s.with_healthcheck(now).state == s.state && s.with_healthcheck(now).last_used
            == s.last_used && s.with_healthcheck(now).created_at == s.created_at,
        s.with_closed(n, left).prepared_statements == left,
        s.with_closed(n, left).total.close == at_most(s.total.close + n),
        s.with_cleaned().total.cleaned == at_most(s.total.cleaned + 1),
        s.with_rollback().last_checkout.rollbacks == at_most(s.last_checkout.rollbacks + 1),
{
}

/// A connection counts as drained once nothing more has to be done to bring it back between queries,
/// and not before; draining changes nothing else.
pub proof fn drained_connections_show(
    before: Server,
    after: Server,
    settled: bool,
    sync_sent: bool,
    r: DrainAction,
)
    requires
        drained(before, after, settled, sync_sent, r),
    ensures
        r == DrainAction::Done ==> after.re_synced && between_queries(after),
        r != DrainAction::Done ==> after == before,
        after.stats == before.stats && after.in_transaction == before.in_transaction,
{
}

/// Queries are sent only to a connection that is between queries, and nothing is sent for none.
pub proof fn batches_begin_between_queries(
    server: Server,
    queries: usize,
    r: Result<Option<Batch>, Error>,
)
    requires
        batch_begun(server, queries, r),
    ensures
        r is Ok <==> between_queries(server),
        r matches Err(e) ==> e == Error::NotInSync,
        r matches Ok(None) ==> queries == 0,
        r matches Ok(Some(b)) ==> queries > 0 && b.expected == queries && b.ready == 0 && b.error
            is None && b.messages@.len() == 0,
{
}

/// A connection that was just made is idle and done, in no transaction, not older than now, never
/// checked, never used, and serves nobody; nothing is counted, set or prepared on it.
pub proof fn new_connections_are_untouched(
    s: Server,
    addr: Address,
    id: BackendKeyData,
    replication_mode: bool,
    pool_id: u64,
    now: Instant,
)
    requires
        s.is_new(addr, id, replication_mode, pool_id, now),
    ensures
        s.id == id && s.addr == addr && s.replication_mode == replication_mode && s.stats.pool_id
            == pool_id,
        s.stats.state == State::Idle && s.is_done() && !s.in_transaction,
        s.stats.created_at == now && s.stats.last_used == now && s.stats.last_healthcheck is None,
        s.stats.client_id is None && s.max_age is None && s.disconnect_reason is None,
        s.stats.total.queries == 0 && s.stats.total.transactions == 0 && s.stats.total.errors == 0
            && s.stats.total.bytes_sent == 0 && s.stats.total.bytes_received == 0,
        s.prepared_statements.names@.len() == 0 && s.client_params.params@.len() == 0
            && s.changed_params.params@.len() == 0,
        !s.dirty && !s.streaming && !s.sending_request && !s.schema_changed && !s.re_synced,
{
}

/// A session streams changes exactly if it is asked to, as `replication=database`. `i` is any
/// setting.
pub proof fn replication_has_to_be_asked_for(params: Seq<crate::net::Parameter>, i: int)
    requires
        0 <= i < params.len(),
    ensures
        params[i].name@ == "replication"@ && params[i].value@ == "database"@ ==> asks_replication(
            params,
        ),
        asks_replication(params) ==> exists|k: int|
            0 <= k < params.len() && (#[trigger] params[k]).name@ == "replication"@
                && params[k].value@ == "database"@,
{
    let _ = params[i].name@;
}

/// Statements are closed in the order in which that was asked for: each answer forgets the next one
/// and no other, and all of them are closed once the server is ready after the last answer. An error
/// of the server is handed on, anything else is out of order, and neither forgets a statement.
pub proof fn statements_are_closed_in_turn(
    before: Server,
    after: Server,
    close: Seq<String>,
    answered: usize,
    reply: Message,
    r: Result<bool, Error>,
    name: Seq<char>,
)
    requires
        close_answered(before, after, close, answered, reply, r),
    ensures
        r == Ok::<bool, Error>(true) <==> answered >= close.len() && reply.body is ReadyForQuery,
        r == Ok::<bool, Error>(false) <==> answered < close.len() && reply.body is CloseComplete,
        r == Ok::<bool, Error>(false) ==> !crate::server::prepared::has_name(
            after.prepared_statements.names@,
            close[answered as int]@,
        ),
        r == Ok::<bool, Error>(false) && name != close[answered as int]@ ==> (
        crate::server::prepared::has_name(after.prepared_statements.names@, name)
            <==> crate::server::prepared::has_name(before.prepared_statements.names@, name)),
        r != Ok::<bool, Error>(false) ==> after == before,
        answered < close.len() ==> (reply.body matches Reply::Error(e) ==> r == Err::<bool, Error>(
            Error::PreparedStatementError(e),
        )),
{
}

} // verus!
