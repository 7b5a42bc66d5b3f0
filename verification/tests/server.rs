//! One connection to a server.

use pgdog::config::general::TlsVerifyMode;
use pgdog::net::{BackendKeyData, ErrorResponse, Parameter, Parameters};
use pgdog::pool::config::Address;
use pgdog::server::connection::{Server, ServerOptions, StreamState};
use pgdog::server::error::{Error, IoKind};
use pgdog::server::handshake::{
    Action, Attempt, AuthType, Authentication, Event, Handshake, StartupMessage, Verdict,
};
use pgdog::server::link::{LinkAction, LinkQueries};
use pgdog::server::secrets::Secrets;
use pgdog::server::session::{
    check_messages, fetch_all, outgoing, Batch, DrainAction, HandleResult, Incoming, Message,
    Relay, Reply, SendStep,
};
use pgdog::server::stats::State;
use pgdog::time::{Duration, Instant};

fn now() -> Instant {
    Instant { nanos: 5_000_000_000 }
}

fn error(severity: &str) -> ErrorResponse {
    ErrorResponse {
        severity: severity.to_string(),
        code: "XX000".to_string(),
        message: "broken".to_string(),
    }
}

fn message(code: char, len: usize, body: Reply) -> Message {
    Message { code, len, body, streaming: false, backend: BackendKeyData { pid: 0, secret: 0 } }
}

fn ready(status: char) -> Message {
    message('Z', 6, Reply::ReadyForQuery { status })
}

fn complete(command: &str) -> Message {
    message('C', 10, Reply::CommandComplete { command: command.to_string() })
}

fn server() -> Server {
    let mut server = Server::default();
    server.id = BackendKeyData { pid: 7, secret: 8 };
    server.stream = Some(StreamState { io_in_progress: false, memory_usage: 0 });
    server
}

#[test]
fn test_effective_max_age_default_is_base() {
    let server = Server::default();
    let base = Duration::from_secs(60);
    assert_eq!(base, server.effective_max_age(base));
}

#[test]
fn test_effective_max_age_uses_stored_value() {
    let mut server = Server::default();
    server.set_max_age(Duration::from_millis(1500));
    let base = Duration::from_secs(60);
    assert_eq!(Duration::from_millis(1500), server.effective_max_age(base));
}

#[test]
fn test_apply_lifetime_jitter_zero_is_noop() {
    let mut server = Server::default();
    server.apply_lifetime_jitter(Duration::from_secs(60), Duration::zero());
    assert_eq!(None, server.max_age);
}

#[test]
fn test_apply_lifetime_jitter_stays_within_bounds() {
    let base = Duration::from_secs(60);
    let jitter = Duration::from_secs(10);
    let lower = base.saturating_sub(jitter);
    let upper = base.saturating_add(jitter);
    let mut saw_below_base = false;
    let mut saw_above_base = false;
    for _ in 0..1_000 {
        let mut server = Server::default();
        server.apply_lifetime_jitter(base, jitter);
        let sampled = server.max_age.expect("a jitter sets the age");
        assert!(sampled.nanos >= lower.nanos && sampled.nanos <= upper.nanos);
        if sampled.nanos < base.nanos {
            saw_below_base = true;
        }
        if sampled.nanos > base.nanos {
            saw_above_base = true;
        }
    }
    assert!(saw_below_base);
    assert!(saw_above_base);
}

#[test]
fn test_apply_lifetime_jitter_saturates_at_zero() {
    let base = Duration::from_millis(10);
    let jitter = Duration::from_millis(100);
    for _ in 0..1_000 {
        let mut server = Server::default();
        server.apply_lifetime_jitter(base, jitter);
        let sampled = server.max_age.expect("max_age set");
        assert!(sampled.nanos <= base.saturating_add(jitter).nanos);
    }
}

#[test]
fn jitter_moves_the_age_by_the_offset() {
    let mut server = Server::default();
    server.set_jittered_age(Duration::from_secs(60), -2_000);
    assert_eq!(server.max_age, Some(Duration::from_secs(58)));
    server.set_jittered_age(Duration::from_secs(60), 2_000);
    assert_eq!(server.max_age, Some(Duration::from_secs(62)));
    server.set_jittered_age(Duration::from_secs(1), -2_000);
    assert_eq!(server.max_age, Some(Duration::zero()));
}

#[test]
fn messages_carry_the_connection_they_came_from() {
    let mut server = server();
    let got = server
        .read(Incoming::Arrived(message('D', 100, Reply::Other), Relay::Forward), now())
        .unwrap()
        .unwrap();
    assert_eq!(got.backend, server.id);
    assert_eq!(server.stats.total.bytes_received, 100);
}

#[test]
fn held_messages_do_not_reach_the_client() {
    let mut server = server();
    let got =
        server.read(Incoming::Arrived(message('1', 5, Reply::ParseComplete), Relay::Hold), now());
    assert!(got.unwrap().is_none());
}

#[test]
fn refused_messages_break_the_connection() {
    let mut server = server();
    let refused = Relay::Refuse(Error::ProtocolOutOfSync);
    let got = server.read(Incoming::Arrived(message('1', 5, Reply::ParseComplete), refused), now());
    assert!(matches!(got, Err(Error::ProtocolOutOfSync)));
    assert!(server.error());

    let mut server = self::server();
    let got = server.read(Incoming::Broken(Error::Io(IoKind::ConnectionReset, "reset".to_string())), now());
    assert!(matches!(got, Err(Error::Io(IoKind::ConnectionReset, _))));
    assert!(server.error());
}

#[test]
fn transactions_are_followed() {
    let mut server = server();
    server.receive(&ready('T'), now()).unwrap();
    assert!(server.in_transaction());
    assert!(server.in_sync());
    assert!(!server.done());
    assert_eq!(server.stats.state, State::IdleInTransaction);
    assert_eq!(server.rollback_query().unwrap(), "ROLLBACK");

    server.receive(&ready('E'), now()).unwrap();
    assert_eq!(server.stats.state, State::TransactionError);

    server.receive(&ready('I'), now()).unwrap();
    assert!(!server.in_transaction());
    assert!(server.rollback_query().is_none());
    assert_eq!(server.stats.state, State::Idle);
    assert_eq!(server.stats.total.queries, 3);

    let err = server.receive(&ready('?'), now()).unwrap_err();
    assert!(matches!(err, Error::UnexpectedTransactionStatus('?')));
}

#[test]
fn errors_of_the_server_are_told_apart() {
    let mut server = server();
    assert!(server.receive(&message('E', 20, Reply::Error(error("ERROR"))), now()).is_ok());
    assert!(!server.force_close());
    assert_eq!(server.stats.total.errors, 1);

    let err = server.receive(&message('E', 20, Reply::Error(error("FATAL"))), now()).unwrap_err();
    assert!(matches!(err, Error::ExecutionError(_)));
    assert!(server.force_close());

    let err = server.receive(&message('x', 20, Reply::Malformed), now()).unwrap_err();
    assert!(matches!(err, Error::MalformedMessage('x')));
}

#[test]
fn commands_leave_traces() {
    let mut server = server();
    server.receive(&complete("PREPARE"), now()).unwrap();
    assert!(server.sync_prepared());

    server.prepared_statements.prepared("one");
    assert_eq!(server.prepared_statements.len(), 1);
    server.receive(&complete("DEALLOCATE ALL"), now()).unwrap();
    assert_eq!(server.prepared_statements.len(), 0);

    server.client_params.insert("a".to_string(), "b".to_string());
    server.receive(&complete("RESET"), now()).unwrap();
    assert!(server.client_params.is_empty());

    server.prepared_statements.prepared("one");
    server.client_params.insert("a".to_string(), "b".to_string());
    server.receive(&complete("DISCARD ALL"), now()).unwrap();
    assert_eq!(server.prepared_statements.len(), 0);
    assert!(server.client_params.is_empty());
}

#[test]
fn a_request_shows_until_it_is_sent() {
    let mut server = server();
    server.send(SendStep::Begin);
    assert!(server.sending_request());
    assert_eq!(server.stats.state, State::Active);
    server.send(SendStep::BeginOne);
    server.send(SendStep::Sent(42));
    assert_eq!(server.stats.total.bytes_sent, 42);
    assert!(server.sending_request());
    server.send(SendStep::Complete);
    assert!(!server.sending_request());
    assert_eq!(server.stats.state, State::ReceivingData);

    server.send(SendStep::Begin);
    server.send(SendStep::Failed);
    assert!(server.sending_request());
    assert!(server.error());
}

#[test]
fn statements_are_prepared_before_they_are_used() {
    assert_eq!(outgoing(HandleResult::Forward, 1), vec![1]);
    assert_eq!(outgoing(HandleResult::Prepend(0), 1), vec![0, 1]);
    assert_eq!(outgoing(HandleResult::Rewrite(2), 1), vec![2]);
    assert_eq!(outgoing(HandleResult::PrependRewrite { prepend: 0, rewrite: 2 }, 1), vec![0, 2]);
    assert!(outgoing(HandleResult::Drop, 1).is_empty());
}

#[test]
fn a_batch_ends_with_its_last_answer() {
    let mut broken = server();
    broken.stats.state = State::Active;
    assert!(matches!(Batch::begin(&broken, 1), Err(Error::NotInSync)));
    assert!(Batch::begin(&server(), 0).unwrap().is_none());

    let mut batch = Batch::begin(&server(), 2).unwrap().unwrap();
    batch.push(complete("SELECT 1"));
    batch.push(ready('I'));
    assert!(!batch.complete());
    batch.push(ready('I'));
    assert!(batch.complete());
    assert_eq!(batch.finish().unwrap().len(), 3);

    let mut batch = Batch::begin(&server(), 1).unwrap().unwrap();
    batch.push(message('E', 9, Reply::Error(error("ERROR"))));
    batch.push(ready('I'));
    assert!(matches!(batch.finish(), Err(Error::ExecutionError(_))));

    let messages = vec![ready('I'), message('E', 9, Reply::Error(error("ERROR")))];
    assert!(matches!(check_messages(messages), Err(Error::ExecutionError(_))));
    assert_eq!(check_messages(vec![ready('I')]).unwrap().len(), 1);
}

#[test]
fn draining_ends_between_queries() {
    let mut server = server();
    server.stats.state = State::ReceivingData;
    server.prepared_statements.more_messages = true;
    assert_eq!(server.drain(false, false), DrainAction::Read);
    server.prepared_statements.more_messages = false;
    assert_eq!(server.drain(true, false), DrainAction::SendSync);
    assert_eq!(server.drain(true, true), DrainAction::Read);
    server.receive(&ready('I'), now()).unwrap();
    assert_eq!(server.drain(true, true), DrainAction::Done);
    assert!(server.re_synced());
}

#[test]
fn rollback_forgets_the_transaction() {
    let mut server = server();
    server.client_params.insert_transaction("a".to_string(), "b".to_string());
    server.rollback(true).unwrap();
    assert!(server.client_params.get("a").is_none());
    assert_eq!(server.stats.total.rollbacks, 1);

    server.in_transaction = true;
    assert!(matches!(server.rollback(true), Err(Error::RollbackFailed)));
}

#[test]
fn old_statements_make_room() {
    let mut server = server();
    for name in ["a", "b", "c"] {
        server.prepared_statements.prepared(name);
    }
    server.prepared_statements.set_capacity(1);
    let evicted = server.ensure_prepared_capacity();
    assert_eq!(evicted, vec!["a".to_string(), "b".to_string()]);
    assert!(server.prepared_statements.contains("c"));
    assert!(server.ensure_prepared_capacity().is_empty());

    server.sync_prepared = true;
    server.sync_prepared_statements(&vec!["d".to_string()]);
    assert!(!server.sync_prepared());
    assert!(server.prepared_statements.contains("d"));
}

fn queries() -> LinkQueries {
    LinkQueries {
        fixed: vec![],
        reset: vec!["RESET a".to_string()],
        set: vec!["SET search_path TO x".to_string()],
        transaction: vec![],
    }
}

#[test]
fn clients_with_the_same_settings_need_nothing() {
    let mut server = server();
    server.client_params.insert("search_path".to_string(), "x".to_string());
    let mut params = Parameters::new();
    params.insert("search_path".to_string(), "x".to_string());
    let id = BackendKeyData { pid: 1, secret: 2 };
    let mut link = server.link_client(&id, &params, None, queries());
    assert!(matches!(server.link_next(&mut link, &params), LinkAction::Done(0)));
}

/// Statements for the settings of a client, without those that are fixed for a session.
fn statements(server: &Server, params: &Parameters) -> LinkQueries {
    let fixed = vec!["is_superuser".to_string()];
    let settings = params.without_fixed(&fixed);
    LinkQueries {
        fixed,
        reset: server.client_params.params.iter().map(|p| format!("RESET {}", p.name)).collect(),
        set: settings.params.iter().map(|p| format!("SET {} TO {}", p.name, p.value)).collect(),
        transaction: vec![],
    }
}

fn link(server: &mut Server, params: &Parameters) -> usize {
    let id = BackendKeyData { pid: 1, secret: 2 };
    let queries = statements(server, params);
    let mut link = server.link_client(&id, params, None, queries);
    loop {
        match server.link_next(&mut link, params) {
            LinkAction::Run(_) => continue,
            LinkAction::Done(changed) => return changed,
        }
    }
}

#[test]
fn test_sync_params() {
    let mut server = server();
    let mut params = Parameters::new();
    params.insert("application_name".to_string(), "test_sync_params".to_string());
    params.insert("is_superuser".to_string(), "off".to_string());
    assert_eq!(link(&mut server, &params), 1);
    assert_eq!(server.client_params.get("is_superuser"), None);
    assert_eq!(link(&mut server, &params), 0);
}

#[test]
fn test_params_sync() {
    let mut server = server();
    let mut params = Parameters::new();
    params.insert("application_name".to_string(), "test".to_string());
    assert_eq!(link(&mut server, &params), 1);
    assert_eq!(link(&mut server, &params), 0);
    for i in 0..25 {
        params.insert("application_name".to_string(), format!("apples_{}", i));
        assert_eq!(link(&mut server, &params), 2);
        assert_eq!(link(&mut server, &params), 0);
    }
}

#[test]
fn test_reset_clears_client_params() {
    let mut server = server();
    let mut params = Parameters::new();
    params.insert("application_name".to_string(), "test_reset".to_string());
    assert_eq!(link(&mut server, &params), 1);
    assert_eq!(link(&mut server, &params), 0);
    server.receive(&complete("RESET"), now()).unwrap();
    assert!(link(&mut server, &params) > 0);
}

#[test]
fn test_deallocate_all_clears_cache() {
    let mut server = server();
    for name in ["__pgdog_1", "__pgdog_2", "__pgdog_3", "__pgdog_4"] {
        server.prepared_statements_mut().prepared(name);
    }
    assert_eq!(server.prepared_statements().len(), 4);
    for message in [complete("DEALLOCATE ALL"), ready('I'), ready('I')] {
        server.receive(&message, now()).unwrap();
    }
    assert_eq!(server.prepared_statements().len(), 0);
    assert!(server.done());
}

#[test]
fn test_discard_all_clears_cache() {
    let mut server = server();
    for name in ["__pgdog_1", "__pgdog_2", "__pgdog_3", "__pgdog_4"] {
        server.prepared_statements_mut().prepared(name);
    }
    assert_eq!(server.prepared_statements().len(), 4);
    for message in [complete("DISCARD ALL"), ready('I'), ready('I')] {
        server.receive(&message, now()).unwrap();
    }
    assert_eq!(server.prepared_statements().len(), 0);
    assert!(server.done());
}

#[test]
fn test_prepare_forces_sync_prepared_flag() {
    let mut server = server();
    assert!(!server.sync_prepared());
    for message in [complete("PREPARE"), ready('I')] {
        server.receive(&message, now()).unwrap();
    }
    assert!(server.sync_prepared());
    server.sync_prepared_statements(&vec!["test_stmt".to_string()]);
    assert!(!server.sync_prepared());
    for message in [complete("SELECT 1"), ready('I')] {
        server.receive(&message, now()).unwrap();
    }
    assert!(!server.sync_prepared());
}

#[test]
fn test_protocol_out_of_sync_sets_error_state() {
    let mut server = server();
    let incoming = Incoming::Arrived(complete("SELECT 1"), Relay::Refuse(Error::ProtocolOutOfSync));
    assert!(matches!(server.read(incoming, now()), Err(Error::ProtocolOutOfSync)));
    assert!(server.stats().get_state() == State::Error);
}

#[test]
fn test_fatal_error_sets_force_close() {
    let mut server = server();
    let message = message('E', 20, Reply::Error(error("FATAL")));
    let result = server.read(Incoming::Arrived(message, Relay::Forward), now());
    assert!(matches!(result, Err(Error::ExecutionError(_))));
    assert!(server.force_close());
    assert_eq!(server.stats().get_state(), State::ForceClose);
}

#[test]
fn test_execute_batch_simple_query_error_then_success() {
    let mut server = server();
    let mut batch = Batch::begin(&server, 2).unwrap().unwrap();
    let answers = vec![
        message('E', 20, Reply::Error(error("ERROR"))),
        ready('I'),
        message('T', 10, Reply::Other),
        message('D', 10, Reply::Other),
        complete("SELECT 1"),
        ready('I'),
    ];
    for answer in answers {
        assert!(!batch.complete());
        let read = server.read(Incoming::Arrived(answer, Relay::Forward), now());
        batch.push(read.unwrap().unwrap());
    }
    assert!(batch.complete());
    assert!(matches!(batch.finish(), Err(Error::ExecutionError(_))));
    assert!(server.done());
}

#[test]
fn test_execute_checked() {
    let mut server = server();
    for _ in 0..25 {
        let mut messages = vec![];
        let answers = vec![
            message('T', 10, Reply::Other),
            message('D', 10, Reply::Other),
            complete("SELECT 1"),
            ready('I'),
        ];
        for answer in answers {
            let read = server.read(Incoming::Arrived(answer, Relay::Forward), now());
            messages.push(read.unwrap().unwrap());
        }
        let mut messages = check_messages(messages).unwrap().into_iter();
        for c in ['T', 'D', 'C', 'Z'] {
            assert_eq!(c, messages.next().unwrap().code);
        }
        assert!(server.done());
    }
}

#[test]
fn clients_with_other_settings_get_theirs() {
    let mut server = server();
    let mut params = Parameters::new();
    params.insert("search_path".to_string(), "x".to_string());
    let id = BackendKeyData { pid: 1, secret: 2 };
    let mut link = server.link_client(&id, &params, Some("BEGIN"), queries());
    match server.link_next(&mut link, &params) {
        LinkAction::Run(list) => {
            assert_eq!(list, vec!["RESET a".to_string(), "SET search_path TO x".to_string()])
        }
        LinkAction::Done(_) => panic!("the settings differ"),
    }
    match server.link_next(&mut link, &params) {
        LinkAction::Run(list) => assert_eq!(list, vec!["BEGIN".to_string()]),
        LinkAction::Done(_) => panic!("a transaction has to be started"),
    }
    assert!(matches!(server.link_next(&mut link, &params), LinkAction::Done(2)));
    assert_eq!(server.client_params.get("search_path"), Some("x"));
}

fn say(h: &mut Handshake, m: StartupMessage) -> Result<Action, Error> {
    h.step(Event::Message(m))
}

#[test]
fn a_session_begins_after_a_proof() {
    let mut h = Handshake::new(TlsVerifyMode::Disabled, "localhost");
    assert!(matches!(h.step(Event::Opened), Ok(Action::SendStartup)));
    let asked = say(&mut h, StartupMessage::Authentication(Authentication::Sasl));
    assert!(matches!(asked, Ok(Action::SendSaslInitial)));
    assert_eq!(h.auth_type, AuthType::Scram);
    let accepted = say(&mut h, StartupMessage::Authentication(Authentication::Accepted));
    assert!(matches!(accepted, Ok(Action::Read)));
    let parameter = Parameter::new("server_version", "17.0");
    assert!(say(&mut h, StartupMessage::ParameterStatus(parameter)).is_ok());
    let key = BackendKeyData { pid: 3, secret: 4 };
    assert!(say(&mut h, StartupMessage::KeyData(key)).is_ok());
    assert!(matches!(say(&mut h, StartupMessage::ReadyForQuery), Ok(Action::Finish)));

    let options = ServerOptions { params: vec![], pool_id: 9 };
    let spare = BackendKeyData { pid: 0, secret: 0 };
    let server = h.finish(Address::default(), &options, spare, now());
    assert_eq!(*server.id(), key);
    assert_eq!(server.params().get("server_version"), Some("17.0"));
    assert_eq!(server.stats().pool_id, 9);
}

#[test]
fn a_session_does_not_begin_without_a_proof() {
    let mut h = Handshake::new(TlsVerifyMode::Disabled, "localhost");
    h.step(Event::Opened).unwrap();
    let err = say(&mut h, StartupMessage::ReadyForQuery).unwrap_err();
    assert!(matches!(err, Error::UnexpectedMessage('Z')));
    let err = say(&mut h, StartupMessage::Error(error("FATAL"))).unwrap_err();
    assert!(matches!(err, Error::ConnectionError(_)));
}

#[test]
fn encryption_is_kept_to() {
    let mut h = Handshake::new(TlsVerifyMode::VerifyFull, "db.example.com");
    assert!(matches!(h.step(Event::Opened), Ok(Action::RequestTls)));
    assert!(matches!(h.step(Event::TlsReply(false)), Err(Error::TlsRequired)));

    let mut h = Handshake::new(TlsVerifyMode::Prefer, "db.example.com");
    h.step(Event::Opened).unwrap();
    assert!(matches!(h.step(Event::TlsReply(false)), Ok(Action::SendStartup)));
    assert!(!h.encrypted);

    let mut h = Handshake::new(TlsVerifyMode::VerifyFull, "db.example.com");
    h.step(Event::Opened).unwrap();
    assert!(matches!(h.step(Event::TlsReply(true)), Ok(Action::MakeConnector)));
    match h.step(Event::ConnectorMade) {
        Ok(Action::StartTls(name)) => assert_eq!(name, "db.example.com"),
        _ => panic!("the connection has to be encrypted"),
    }
    assert!(matches!(h.step(Event::TlsEstablished), Ok(Action::SendStartup)));
    assert!(h.encrypted);

    // No certificate can be for this name.
    let mut h = Handshake::new(TlsVerifyMode::VerifyFull, "not a name!");
    h.step(Event::Opened).unwrap();
    assert!(matches!(h.step(Event::TlsReply(true)), Ok(Action::MakeConnector)));
    assert!(matches!(h.step(Event::ConnectorMade), Err(Error::InvalidServerName)));

    let mut h = Handshake::new(TlsVerifyMode::VerifyFull, "127.0.0.1");
    h.step(Event::Opened).unwrap();
    h.step(Event::TlsReply(true)).unwrap();
    assert!(h.step(Event::ConnectorMade).is_ok());
    match h.step(Event::TlsFailed("bad certificate".to_string())) {
        Err(Error::Io(IoKind::ConnectionRefused, text)) => {
            assert_eq!(text, "TLS handshake failed: bad certificate")
        }
        _ => panic!("the handshake failed"),
    }
}

#[test]
fn a_bad_certificate_file_is_reported_before_a_bad_name() {
    let mut h = Handshake::new(TlsVerifyMode::VerifyCa, "not a name!");
    h.step(Event::Opened).unwrap();
    h.step(Event::TlsReply(true)).unwrap();
    match h.step(Event::ConnectorFailed(Error::Net("no such file".to_string()))) {
        Err(Error::Net(text)) => assert_eq!(text, "no such file"),
        _ => panic!("the certificates cannot be read"),
    }
}

#[test]
fn contents_matter_only_where_they_are_looked_at() {
    let mut h = Handshake::new(TlsVerifyMode::Disabled, "localhost");
    h.step(Event::Opened).unwrap();
    let bad = say(&mut h, StartupMessage::Malformed('R'));
    assert!(matches!(bad, Err(Error::MalformedMessage('R'))));
    let bad = say(&mut h, StartupMessage::Malformed('S'));
    assert!(matches!(bad, Err(Error::UnexpectedMessage('S'))));
    say(&mut h, StartupMessage::Authentication(Authentication::Accepted)).unwrap();
    let bad = say(&mut h, StartupMessage::Malformed('S'));
    assert!(matches!(bad, Err(Error::MalformedMessage('S'))));
    let bad = say(&mut h, StartupMessage::Malformed('R'));
    assert!(matches!(bad, Err(Error::UnexpectedMessage('R'))));
    assert!(matches!(say(&mut h, StartupMessage::Malformed('Z')), Ok(Action::Finish)));
}

#[test]
fn passwords_are_tried_in_order() {
    assert!(matches!(Server::connect_first(0, error("FATAL")), Err(Error::ConnectionError(_))));
    assert_eq!(Server::connect_first(2, error("FATAL")).unwrap(), 0);

    let wrong = || Attempt::Refused { error: error("FATAL"), bad_password: true };
    assert!(matches!(Server::connect(0, 2, wrong(), error("FATAL")), Verdict::TryNext(1)));
    assert!(matches!(Server::connect(1, 2, wrong(), error("FATAL")), Verdict::Exhausted(_)));
    let refused = Attempt::Refused { error: error("FATAL"), bad_password: false };
    assert!(matches!(Server::connect(0, 2, refused, error("FATAL")), Verdict::GiveUp(_)));
    let failed = Attempt::Failed(Error::TlsRequired);
    assert!(matches!(
        Server::connect(0, 2, failed, error("FATAL")),
        Verdict::GiveUp(Error::TlsRequired)
    ));
    match Server::connect(1, 2, Attempt::Connected(server()), error("FATAL")) {
        Verdict::Accept(server) => assert_eq!(server.password_attempts(), 2),
        _ => panic!("the password is right"),
    }
}

#[test]
fn settings_of_transactions_are_kept_or_forgotten() {
    let mut params = Parameters::new();
    params.insert("a".to_string(), "1".to_string());
    params.insert_transaction("a".to_string(), "2".to_string());
    params.rollback();
    assert_eq!(params.get("a"), Some("1"));
    params.insert_transaction("a".to_string(), "2".to_string());
    params.commit();
    assert_eq!(params.get("a"), Some("2"));
    assert_eq!(params.get_default("b", "x"), "x");
}

fn answer(code: char, body: Reply) -> Message {
    Message { code, len: 5, body, streaming: false, backend: BackendKeyData::default() }
}

#[test]
fn rows_are_fetched_in_order() {
    let rows = fetch_all(vec![
        (answer('T', Reply::Other), 0),
        (answer('D', Reply::Other), 1),
        (answer('D', Reply::Other), 2),
        (answer('C', Reply::CommandComplete { command: "SELECT 2".to_string() }), 3),
        (answer('Z', Reply::ReadyForQuery { status: 'I' }), 4),
    ]);
    assert_eq!(rows.unwrap(), vec![1, 2]);
}

#[test]
fn rows_before_an_error_are_lost() {
    let error = ErrorResponse {
        severity: "ERROR".to_string(),
        code: "22012".to_string(),
        message: "division by zero".to_string(),
    };
    let rows = fetch_all(vec![
        (answer('D', Reply::Other), 1),
        (answer('E', Reply::Error(error)), 2),
        (answer('Z', Reply::ReadyForQuery { status: 'I' }), 3),
    ]);
    match rows {
        Err(Error::ExecutionError(error)) => assert_eq!(error.code, "22012"),
        _ => panic!("an error was expected"),
    }
}

fn run(server: &mut Server, command: &str, status: char) {
    for answer in [complete(command), ready(status)] {
        server.read(Incoming::Arrived(answer, Relay::Forward), now()).unwrap();
    }
}

#[test]
fn server_test_query_stats() {
    let mut server = server();
    assert_eq!(server.stats().last_checkout().queries, 0);
    assert_eq!(server.stats().last_checkout().transactions, 0);
    for i in 1..26 {
        run(&mut server, "SELECT 1", 'I');
        assert_eq!(server.stats().last_checkout().queries, i);
        assert_eq!(server.stats().last_checkout().transactions, i);
        assert_eq!(server.stats().total().queries, i);
        assert_eq!(server.stats().total().transactions, i);
    }
    let counts = server.stats_mut().reset_last_checkout();
    assert_eq!(counts.queries, 25);
    assert_eq!(counts.transactions, 25);
    assert_eq!(server.stats().last_checkout().queries, 0);
    assert_eq!(server.stats().last_checkout().transactions, 0);
    assert_eq!(server.stats().total().queries, 25);
    assert_eq!(server.stats().total().transactions, 25);
    for i in 1..26 {
        run(&mut server, "BEGIN", 'T');
        run(&mut server, "SELECT 1", 'T');
        run(&mut server, "SELECT 1", 'T');
        run(&mut server, "COMMIT", 'I');
        assert_eq!(server.stats().last_checkout().queries, i * 4);
        assert_eq!(server.stats().last_checkout().transactions, i);
        assert_eq!(server.stats().total().queries, 25 + (i * 4));
        assert_eq!(server.stats().total().transactions, 25 + i);
    }
    let counts = server.stats_mut().reset_last_checkout();
    assert_eq!(counts.queries, 25 * 4);
    assert_eq!(counts.transactions, 25);
    assert_eq!(server.stats().total().queries, 25 + (25 * 4));
    assert_eq!(server.stats().total().transactions, 25 + 25);
}

#[test]
fn traces_of_a_client_are_removed() {
    let mut server = server();
    server.changed_params.insert("timezone".to_string(), "UTC".to_string());
    server.client_params.insert("timezone".to_string(), "UTC".to_string());
    server.prepared_statements_mut().prepared("__pgdog_1");
    server.schema_changed = true;
    server.reset_changed_params();
    assert!(server.changed_params().is_empty());
    server.reset_params();
    assert!(server.client_params.is_empty());
    server.reset_schema_changed();
    assert!(!server.schema_changed());
    assert_eq!(server.prepared_statements().len(), 0);
}

#[test]
fn memory_is_added_up_from_its_parts() {
    let mut server = server();
    server.stream_buffer = 4096;
    server.prepared_statements.memory_used = 128;
    server.stream = Some(StreamState { io_in_progress: false, memory_usage: 1024 });
    let stats = server.memory_stats();
    assert_eq!(stats.buffer, 4096);
    assert_eq!(stats.prepared_statements, 128);
    assert_eq!(stats.stream, 1024);
}

#[test]
fn passwords_that_were_refused_are_tried_last() {
    let mut secrets = Secrets::new(3);
    assert_eq!(secrets.order(), vec![0, 1, 2]);
    secrets.tried(0, false);
    assert_eq!(secrets.order(), vec![1, 2, 0]);
    secrets.tried(1, false);
    secrets.tried(2, true);
    assert_eq!(secrets.order(), vec![2, 0, 1]);
    secrets.tried(0, true);
    assert_eq!(secrets.order(), vec![0, 2, 1]);
    assert!(Secrets::new(0).order().is_empty());
}

#[test]
fn fixed_settings_are_not_taken_over() {
    let mut params = Parameters::new();
    params.insert("is_superuser".to_string(), "off".to_string());
    params.insert("search_path".to_string(), "x".to_string());
    let fixed = vec!["is_superuser".to_string()];
    let settings = params.without_fixed(&fixed);
    assert_eq!(settings.get("search_path"), Some("x"));
    assert_eq!(settings.get("is_superuser"), None);
    assert_eq!(params.without_fixed(&vec![]).get("is_superuser"), Some("off"));
}

#[test]
fn a_connection_is_done_once_the_last_statement_is_answered() {
    let mut server = server();
    for message in [ready('T'), complete("SELECT 1")] {
        server.receive(&message, now()).unwrap();
        assert!(!server.done());
    }
    server.receive(&ready('I'), now()).unwrap();
    assert!(server.done());
}

/// Connect to a server whose password is known, and count the passwords that are tried.
fn log_in(secrets: &mut Secrets, passwords: &[&str], attempts: &mut usize) -> Result<Server, Error> {
    let order = secrets.order();
    let mut idx = Server::connect_first(order.len(), error("FATAL"))?;
    loop {
        let number = order[idx];
        let accepted = passwords[number] == "pgdog";
        *attempts += 1;
        let outcome = if accepted {
            Attempt::Connected(server())
        } else {
            Attempt::Refused { error: error("FATAL"), bad_password: true }
        };
        let verdict = Server::connect(idx, order.len(), outcome, error("FATAL"));
        secrets.note(number, &verdict);
        match verdict {
            Verdict::Accept(server) => return Ok(server),
            Verdict::TryNext(next) => idx = next,
            Verdict::Exhausted(err) | Verdict::GiveUp(err) => return Err(err),
        }
    }
}

#[test]
fn test_auth_attempts_single_good_password() {
    let mut secrets = Secrets::new(1);
    let mut attempts = 0;
    assert!(log_in(&mut secrets, &["pgdog"], &mut attempts).is_ok());
    assert_eq!(attempts, 1);
    assert!(secrets.valid[0]);
}

#[test]
fn test_auth_attempts_good_first_among_bad() {
    let mut secrets = Secrets::new(3);
    let mut attempts = 0;
    assert!(log_in(&mut secrets, &["pgdog", "wrong1", "wrong2"], &mut attempts).is_ok());
    assert_eq!(attempts, 1);
    assert!(secrets.valid[0]);
    assert!(secrets.valid[1]);
    assert!(secrets.valid[2]);
}

#[test]
fn test_auth_attempts_good_last_among_bad() {
    let passwords = ["wrong1", "wrong2", "pgdog"];
    let mut secrets = Secrets::new(3);
    let mut attempts = 0;
    let conn = log_in(&mut secrets, &passwords, &mut attempts).unwrap();
    assert_eq!(conn.password_attempts(), 3);
    assert_eq!(attempts, 3);
    assert!(!secrets.valid[0]);
    assert!(!secrets.valid[1]);
    assert!(secrets.valid[2]);

    let conn = log_in(&mut secrets, &passwords, &mut attempts).unwrap();
    assert_eq!(conn.password_attempts(), 1);
    assert_eq!(attempts, 4);
}

#[test]
fn test_auth_attempts_all_bad_passwords() {
    let passwords = ["wrong1", "wrong2", "wrong3"];
    let mut secrets = Secrets::new(3);
    let mut attempts = 0;
    assert!(log_in(&mut secrets, &passwords, &mut attempts).is_err());
    assert_eq!(attempts, 3);
    assert_eq!(secrets.valid, vec![false, false, false]);
    assert!(log_in(&mut secrets, &passwords, &mut attempts).is_err());
    assert_eq!(attempts, 6);
}

#[test]
fn test_auth_attempts_single_bad_password() {
    let mut secrets = Secrets::new(1);
    let mut attempts = 0;
    assert!(log_in(&mut secrets, &["wrong"], &mut attempts).is_err());
    assert_eq!(attempts, 1);
    assert!(!secrets.valid[0]);
}

#[test]
fn test_auth_attempts_recovers_after_password_added() {
    let mut secrets = Secrets::new(2);
    let mut attempts = 0;
    assert!(log_in(&mut secrets, &["wrong1", "wrong2"], &mut attempts).is_err());
    assert_eq!(attempts, 2);
    secrets.tried(0, true);
    assert_eq!(attempts, 2);
    assert_eq!(secrets.order(), vec![0, 1]);
}

#[test]
fn giving_up_says_nothing_of_a_password() {
    let mut secrets = Secrets::new(2);
    secrets.tried(1, false);
    for number in 0..2 {
        secrets.note(number, &Verdict::GiveUp(Error::TlsRequired));
    }
    assert_eq!(secrets.valid, vec![true, false]);
    secrets.note(0, &Verdict::Exhausted(Error::ConnectionError(error("FATAL"))));
    assert_eq!(secrets.valid, vec![false, false]);
    secrets.note(1, &Verdict::Accept(server()));
    assert_eq!(secrets.valid, vec![false, true]);
}

#[test]
fn prepared_statements_are_kept_oldest_first() {
    let mut server = server();
    let statements = server.prepared_statements_mut();
    for name in ["b", "a", "b"] {
        statements.prepared(name);
    }
    statements.prepared_all(&vec!["c".to_string(), "a".to_string(), "d".to_string()]);
    assert_eq!(statements.names, vec!["b", "a", "c", "d"]);
    assert!(statements.remove("a"));
    assert!(!statements.remove("a"));
    assert_eq!(statements.names, vec!["b", "c", "d"]);
    statements.set_capacity(2);
    assert_eq!(statements.ensure_capacity(), vec!["b"]);
}

#[test]
fn what_is_done_between_reads_does_not_matter() {
    let mut server = server();
    let mut read = |message: Message| {
        server.send(SendStep::Begin);
        server.read(Incoming::Arrived(message, Relay::Forward), now()).unwrap();
        server.send(SendStep::Complete);
        server.done()
    };
    assert!(!read(complete("SELECT 1")));
    assert!(!read(message('N', 5, Reply::Other)));
    assert!(read(ready('I')));
}
