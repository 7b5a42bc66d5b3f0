//! Making a connection: encryption, authentication and the start of the session.
//!
//! The bytes are exchanged elsewhere; the rules here are told what came and say what to do next.

use crate::config::general::TlsVerifyMode;
use crate::net::{BackendKeyData, ErrorResponse, Parameter, Parameters};
#[allow(unused_imports)]
use crate::net::lookup;
use crate::pool::config::Address;
use crate::server::connection::{Server, ServerOptions};
#[allow(unused_imports)]
use crate::server::connection::asks_replication;
use crate::server::error::{Error, IoKind};
#[allow(unused_imports)]
use crate::server::stats::State;
use crate::text::{concat2, owned};
use crate::time::Instant;
use rustls_pki_types::ServerName;
use vstd::prelude::*;

verus! {

/// How the server let the connection in.
#[derive(Clone, Copy, Debug, PartialEq, Eq, Structural)]
pub enum AuthType {
    /// Without further ado, or with a plain password.
    Trust,
    /// With a salted MD5 hash.
    Md5,
    /// With SCRAM.
    Scram,
}

/// A request of the server to prove who the pooler is.
#[derive(Debug)]
pub enum Authentication {
    /// It has been proved.
    Accepted,
    /// Send the password.
    ClearTextPassword,
    /// Begin a SASL exchange.
    Sasl,
    /// Answer this challenge.
    SaslContinue(String),
    /// The server's own proof.
    SaslFinal(String),
    /// Send a hash of the password with this salt.
    Md5(Vec<u8>),
}

/// A message from the server while the connection is made.
#[derive(Debug)]
pub enum StartupMessage {
    /// The server refuses.
    Error(ErrorResponse),
    /// The server asks for a proof.
    Authentication(Authentication),
    /// The session has begun.
    ReadyForQuery,
    /// A setting of the session.
    ParameterStatus(Parameter),
    /// Identifier of the connection.
    KeyData(BackendKeyData),
    /// A remark.
    Notice,
    /// A message of this kind that could not be understood.
    Malformed(char),
    /// A message of another kind.
    Other(char),
}

/// What happened.
#[derive(Debug)]
pub enum Event {
    /// The network connection is open.
    Opened,
    /// The server does (`true`) or does not offer encryption.
    TlsReply(bool),
    /// What it takes to encrypt is at hand.
    ConnectorMade,
    /// What it takes to encrypt could not be had, such as a certificate to trust.
    ConnectorFailed(Error),
    /// The connection is encrypted.
    TlsEstablished,
    /// The connection could not be encrypted.
    TlsFailed(String),
    /// A message came.
    Message(StartupMessage),
}

/// What to do next.
#[derive(Debug)]
pub enum Action {
    /// Ask for encryption.
    RequestTls,
    /// Get what it takes to encrypt.
    MakeConnector,
    /// Encrypt, and hold the certificate against this name.
    StartTls(String),
    /// Ask for a session.
    SendStartup,
    /// Send the password.
    SendPassword,
    /// Begin a SASL exchange.
    SendSaslInitial,
    /// Answer this challenge.
    SendSaslResponse(String),
    /// Check the server's own proof.
    VerifySaslFinal(String),
    /// Send a hash of the password with this salt.
    SendMd5(Vec<u8>),
    /// Read another message.
    Read,
    /// Nothing: the session has begun.
    Finish,
}

/// How far the connection is.
#[derive(Clone, Copy, Debug, PartialEq, Eq, Structural)]
pub enum Phase {
    /// Nothing has been exchanged.
    Opening,
    /// Encryption was asked for.
    TlsRequested,
    /// The server offers encryption.
    TlsOffered,
    /// The connection is being encrypted.
    TlsStarted,
    /// The pooler proves who it is.
    Authenticating,
    /// The session begins.
    Starting,
    /// The session has begun.
    Ready,
}

/// A connection in the making.
#[derive(Debug)]
pub struct Handshake {
    /// How far it is.
    pub phase: Phase,
    /// How much of the server's certificate is verified.
    pub tls_mode: TlsVerifyMode,
    /// Host of the server.
    pub host: String,
    /// The connection is encrypted.
    pub encrypted: bool,
    /// How the server lets the connection in.
    pub auth_type: AuthType,
    /// Settings that the server announced, in order.
    pub params: Vec<Parameter>,
    /// Identifier that the server gave.
    pub key_data: Option<BackendKeyData>,
}

/// `rustls_pki_types::ServerName::try_from` accepts the text, as a DNS name or as an IP address.
pub uninterp spec fn is_server_name(host: Seq<char>) -> bool;

/// `rustls_pki_types::ServerName::try_from` on an owned string: whether it is a DNS name or an IP
/// address that a certificate can be held against.
#[verifier::external_body]
fn valid_server_name(host: &str) -> (r: bool)
    ensures
        r == is_server_name(host@),
{
    ServerName::try_from(host.to_owned()).is_ok()
}

/// The server must not be used without encryption.
pub open spec fn needs_tls(mode: TlsVerifyMode) -> bool {
    mode == TlsVerifyMode::VerifyFull || mode == TlsVerifyMode::VerifyCa
}

/// The event can happen in this phase.
pub open spec fn fits(phase: Phase, event: Event) -> bool {
    match phase {
        Phase::Opening => event is Opened,
        Phase::TlsRequested => event is TlsReply,
        Phase::TlsOffered => event is ConnectorMade || event is ConnectorFailed,
        Phase::TlsStarted => event is TlsEstablished || event is TlsFailed,
        Phase::Authenticating | Phase::Starting => event is Message,
        Phase::Ready => false,
    }
}

/// Kind of a message.
pub open spec fn kind(m: StartupMessage) -> char {
    match m {
        StartupMessage::Error(_) => 'E',
        StartupMessage::Authentication(_) => 'R',
        StartupMessage::ReadyForQuery => 'Z',
        StartupMessage::ParameterStatus(_) => 'S',
        StartupMessage::KeyData(_) => 'K',
        StartupMessage::Notice => 'N',
        StartupMessage::Malformed(c) => c,
        StartupMessage::Other(c) => c,
    }
}

/// The contents of messages of this kind are looked at in this phase.
pub open spec fn looked_at(phase: Phase, c: char) -> bool {
    if phase == Phase::Authenticating {
        c == 'E' || c == 'R'
    } else {
        c == 'S' || c == 'K' || c == 'E' || c == 'N'
    }
}

/// What is wrong with a message that could not be understood. Where nobody looks at its contents,
/// nothing more is wrong with it than with another message of its kind.
pub open spec fn malformed(phase: Phase, c: char) -> Option<Error> {
    if looked_at(phase, c) {
        Some(Error::MalformedMessage(c))
    } else if phase == Phase::Starting && c == 'Z' {
        None
    } else {
        Some(Error::UnexpectedMessage(c))
    }
}

/// What is wrong with the event, if anything. What it takes to encrypt comes before the name of the
/// host.
pub open spec fn fault(h: Handshake, event: Event, name_valid: bool) -> Option<Error> {
    match event {
        Event::Opened | Event::TlsEstablished => None,
        Event::TlsReply(offered) => if !offered && needs_tls(h.tls_mode) {
            Some(Error::TlsRequired)
        } else {
            None
        },
        Event::ConnectorMade => if name_valid {
            None
        } else {
            Some(Error::InvalidServerName)
        },
        Event::ConnectorFailed(e) => Some(e),
        Event::TlsFailed(_) => None,
        Event::Message(m) => match m {
            StartupMessage::Error(e) => Some(Error::ConnectionError(e)),
            StartupMessage::Malformed(c) => malformed(h.phase, c),
            StartupMessage::Other(c) => Some(Error::UnexpectedMessage(c)),
            StartupMessage::Authentication(_) => if h.phase == Phase::Authenticating {
                None
            } else {
                Some(Error::UnexpectedMessage('R'))
            },
            _ => if h.phase == Phase::Starting {
                None
            } else {
                Some(Error::UnexpectedMessage(kind(m)))
            },
        },
    }
}

/// The phase that a proof, or the request for one, leads to.
pub open spec fn authenticated(
    h: Handshake,
    after: Handshake,
    a: Authentication,
    action: Action,
) -> bool {
    match a {
        Authentication::Accepted => after == (Handshake { phase: Phase::Starting, ..h }) && action
            == Action::Read,
        Authentication::ClearTextPassword => after == h && action == Action::SendPassword,
        Authentication::Sasl => after == (Handshake { auth_type: AuthType::Scram, ..h }) && action
            == Action::SendSaslInitial,
        Authentication::SaslContinue(data) => after == h && action == Action::SendSaslResponse(
            data,
        ),
        Authentication::SaslFinal(data) => after == h && action == Action::VerifySaslFinal(data),
        Authentication::Md5(salt) => after == (Handshake { auth_type: AuthType::Md5, ..h })
            && action == Action::SendMd5(salt),
    }
}

/// `after` and `action` are what an event without fault leads to.
pub open spec fn advanced(h: Handshake, after: Handshake, event: Event, action: Action) -> bool {
    match event {
        Event::Opened => if h.tls_mode == TlsVerifyMode::Disabled {
            after == (Handshake { phase: Phase::Authenticating, ..h }) && action
                == Action::SendStartup
        } else {
            after == (Handshake { phase: Phase::TlsRequested, ..h }) && action
                == Action::RequestTls
        },
        Event::TlsReply(offered) => if offered {
            after == (Handshake { phase: Phase::TlsOffered, ..h }) && action
                == Action::MakeConnector
        } else {
            after == (Handshake { phase: Phase::Authenticating, ..h }) && action
                == Action::SendStartup
        },
        Event::ConnectorMade => after == (Handshake { phase: Phase::TlsStarted, ..h }) && (
        action matches Action::StartTls(name) && name@ == h.host@),
        Event::ConnectorFailed(_) => false,
        Event::TlsEstablished => after == (Handshake {
            phase: Phase::Authenticating,
            encrypted: true,
            ..h
        }) && action == Action::SendStartup,
        Event::TlsFailed(_) => false,
        Event::Message(m) => match m {
            StartupMessage::Authentication(a) => authenticated(h, after, a, action),
            StartupMessage::ReadyForQuery | StartupMessage::Malformed(_) => after == (Handshake {
                phase: Phase::Ready,
                ..h
            }) && action == Action::Finish,
            StartupMessage::ParameterStatus(p) => after == (Handshake {
                params: after.params,
                ..h
            }) && after.params@ == h.params@.push(p) && action == Action::Read,
            StartupMessage::KeyData(k) => after == (Handshake { key_data: Some(k), ..h })
                && action == Action::Read,
            StartupMessage::Notice => after == h && action == Action::Read,
            _ => false,
        },
    }
}

/// `after` and `r` are what an event leads to.
pub open spec fn answered(
    before: Handshake,
    after: Handshake,
    event: Event,
    name_valid: bool,
    r: Result<Action, Error>,
) -> bool {
    match (event, fault(before, event, name_valid)) {
        (Event::TlsFailed(text), _) => after == before && (r matches Err(Error::Io(kind, e)) && kind
            == IoKind::ConnectionRefused && e@ == "TLS handshake failed: "@ + text@),
        (_, Some(e)) => after == before && r == Err::<Action, Error>(e),
        (_, None) => r matches Ok(action) && advanced(before, after, event, action),
    }
}

impl Handshake {
    /// Where encryption is required, nothing is said without it.
    pub open spec fn safe(&self) -> bool {
        &&& self.phase == Phase::Authenticating || self.phase == Phase::Starting || self.phase
            == Phase::Ready ==> (needs_tls(self.tls_mode) ==> self.encrypted)
        &&& self.encrypted ==> self.tls_mode != TlsVerifyMode::Disabled
        &&& self.phase == Phase::TlsRequested || self.phase == Phase::TlsOffered || self.phase
            == Phase::TlsStarted ==> self.tls_mode != TlsVerifyMode::Disabled
    }

    /// A connection of which nothing has been exchanged.
    pub fn new(tls_mode: TlsVerifyMode, host: &str) -> (r: Self)
        ensures
            r.phase == Phase::Opening,
            r.tls_mode == tls_mode,
            r.host@ == host@,
            !r.encrypted,
            r.auth_type == AuthType::Trust,
            r.params@.len() == 0,
            r.key_data is None,
            r.safe(),
    {
        Handshake {
            phase: Phase::Opening,
            tls_mode,
            host: owned(host),
            encrypted: false,
            auth_type: AuthType::Trust,
            params: Vec::new(),
            key_data: None,
        }
    }

    /// Take in an event and say what to do next.
    pub fn step(&mut self, event: Event) -> (r: Result<Action, Error>)
        requires
            fits(old(self).phase, event),
            old(self).safe(),
        ensures
            final(self).safe(),
            answered(*old(self), *final(self), event, is_server_name(old(self).host@), r),
    {
        let name_valid = match event {
            Event::ConnectorMade => valid_server_name(self.host.as_str()),
            _ => true,
        };
        self.step_with(event, name_valid)
    }

    /// Take in an event and say what to do next, given whether a certificate can be held against
    /// the name of the host.
    pub fn step_with(&mut self, event: Event, name_valid: bool) -> (r: Result<Action, Error>)
        requires
            fits(old(self).phase, event),
            old(self).safe(),
        ensures
            final(self).safe(),
            answered(*old(self), *final(self), event, name_valid, r),
    {
        match event {
            Event::Opened => {
                if self.tls_mode == TlsVerifyMode::Disabled {
                    self.phase = Phase::Authenticating;
                    Ok(Action::SendStartup)
                } else {
                    self.phase = Phase::TlsRequested;
                    Ok(Action::RequestTls)
                }
            },
            Event::TlsReply(offered) => {
                if offered {
                    self.phase = Phase::TlsOffered;
                    Ok(Action::MakeConnector)
                } else if self.tls_mode == TlsVerifyMode::VerifyFull || self.tls_mode
                    == TlsVerifyMode::VerifyCa {
                    Err(Error::TlsRequired)
                } else {
                    self.phase = Phase::Authenticating;
                    Ok(Action::SendStartup)
                }
            },
            Event::ConnectorMade => {
                if !name_valid {
                    return Err(Error::InvalidServerName);
                }
                self.phase = Phase::TlsStarted;
                Ok(Action::StartTls(self.host.clone()))
            },
            Event::ConnectorFailed(err) => Err(err),
            Event::TlsEstablished => {
                self.encrypted = true;
                self.phase = Phase::Authenticating;
                Ok(Action::SendStartup)
            },
            Event::TlsFailed(text) => Err(
                Error::Io(IoKind::ConnectionRefused, concat2("TLS handshake failed: ", text.as_str())),
            ),
            Event::Message(message) => {
                if self.phase == Phase::Authenticating {
                    self.authenticate(message)
                } else {
                    self.start(message)
                }
            },
        }
    }

    /// Take in a message while the pooler proves who it is.
    fn authenticate(&mut self, message: StartupMessage) -> (r: Result<Action, Error>)
        requires
            old(self).phase == Phase::Authenticating,
            old(self).safe(),
        ensures
            final(self).safe(),
            match fault(*old(self), Event::Message(message), true) {
                Some(e) => *final(self) == *old(self) && r == Err::<Action, Error>(e),
                None => r matches Ok(action) && advanced(
                    *old(self),
                    *final(self),
                    Event::Message(message),
                    action,
                ),
            },
    {
        match message {
            StartupMessage::Error(error) => Err(Error::ConnectionError(error)),
            StartupMessage::Authentication(auth) => match auth {
                Authentication::Accepted => {
                    self.phase = Phase::Starting;
                    Ok(Action::Read)
                },
                Authentication::ClearTextPassword => Ok(Action::SendPassword),
                Authentication::Sasl => {
                    self.auth_type = AuthType::Scram;
                    Ok(Action::SendSaslInitial)
                },
                Authentication::SaslContinue(data) => Ok(Action::SendSaslResponse(data)),
                Authentication::SaslFinal(data) => Ok(Action::VerifySaslFinal(data)),
                Authentication::Md5(salt) => {
                    self.auth_type = AuthType::Md5;
                    Ok(Action::SendMd5(salt))
                },
            },
            StartupMessage::ReadyForQuery => Err(Error::UnexpectedMessage('Z')),
            StartupMessage::ParameterStatus(_) => Err(Error::UnexpectedMessage('S')),
            StartupMessage::KeyData(_) => Err(Error::UnexpectedMessage('K')),
            StartupMessage::Notice => Err(Error::UnexpectedMessage('N')),
            StartupMessage::Malformed(code) => if code == 'E' || code == 'R' {
                Err(Error::MalformedMessage(code))
            } else {
                Err(Error::UnexpectedMessage(code))
            },
            StartupMessage::Other(code) => Err(Error::UnexpectedMessage(code)),
        }
    }

    /// Take in a message while the session begins.
    fn start(&mut self, message: StartupMessage) -> (r: Result<Action, Error>)
        requires
            old(self).phase == Phase::Starting,
            old(self).safe(),
        ensures
            final(self).safe(),
            match fault(*old(self), Event::Message(message), true) {
                Some(e) => *final(self) == *old(self) && r == Err::<Action, Error>(e),
                None => r matches Ok(action) && advanced(
                    *old(self),
                    *final(self),
                    Event::Message(message),
                    action,
                ),
            },
    {
        match message {
            StartupMessage::ReadyForQuery => {
                self.phase = Phase::Ready;
                Ok(Action::Finish)
            },
            StartupMessage::ParameterStatus(parameter) => {
                self.params.push(parameter);
                Ok(Action::Read)
            },
            StartupMessage::KeyData(key) => {
                self.key_data = Some(key);
                Ok(Action::Read)
            },
            StartupMessage::Notice => Ok(Action::Read),
            StartupMessage::Error(error) => Err(Error::ConnectionError(error)),
            StartupMessage::Authentication(_) => Err(Error::UnexpectedMessage('R')),
            StartupMessage::Malformed(code) => if code == 'S' || code == 'K' || code == 'E' || code
                == 'N' {
                Err(Error::MalformedMessage(code))
            } else if code == 'Z' {
                self.phase = Phase::Ready;
                Ok(Action::Finish)
            } else {
                Err(Error::UnexpectedMessage(code))
            },
            StartupMessage::Other(code) => Err(Error::UnexpectedMessage(code)),
        }
    }

    /// The connection, once the session has begun. Some servers do not identify connections;
    /// then `spare_id` stands in, with which a query cannot be cancelled.
    pub fn finish(
        self,
        addr: Address,
        options: &ServerOptions,
        spare_id: BackendKeyData,
        now: Instant,
    ) -> (r: Server)
        requires
            self.phase == Phase::Ready,
        ensures
            r.wf(),
            r.is_new(
                addr,
                match self.key_data {
                    Some(id) => id,
                    None => spare_id,
                },
                asks_replication(options.params@),
                options.pool_id,
                now,
            ),
            forall|n: Seq<char>| #[trigger] r.params.value(n) == lookup(self.params@, n),
            r.params.transaction@.len() == 0,
    {
        let mut params = Parameters::new();
        let ghost all = self.params@;
        assert(all.take(0) == Seq::<Parameter>::empty());
        for i in 0..self.params.len()
            invariant
                all == self.params@,
                params.wf(),
                params.transaction@.len() == 0,
                forall|n: Seq<char>| #[trigger] params.value(n) == lookup(all.take(i as int), n),
        {
            let p = self.params[i].clone();
            proof {
                assert(all.take(i + 1).drop_last() == all.take(i as int));
                assert(all.take(i + 1).last() == p);
            }
            params.insert(p.name, p.value);
        }
        assert(all.take(all.len() as int) == all);
        let id = match self.key_data {
            Some(id) => id,
            None => spare_id,
        };
        Server::new(addr, id, params, options, now)
    }
}

/// The session begins only once the server has accepted the pooler's proof: the only step out of
/// authentication is the server's word that all is well.
pub proof fn session_needs_proof(h: Handshake, after: Handshake, event: Event, action: Action)
    requires
        fits(h.phase, event),
        fault(h, event, true) is None,
        advanced(h, after, event, action),
        after.phase == Phase::Starting || after.phase == Phase::Ready,
        h.phase != Phase::Starting,
    ensures
        h.phase == Phase::Authenticating,
        event == Event::Message(StartupMessage::Authentication(Authentication::Accepted)),
{
}

/// Secrets are sent only where encryption is not required or is in place: no step that asks for a
/// password, a hash or a SASL message is taken before that.
pub proof fn secrets_need_tls(h: Handshake, after: Handshake, event: Event, action: Action)
    requires
        h.safe(),
        fits(h.phase, event),
        advanced(h, after, event, action),
        needs_tls(h.tls_mode),
        action is SendPassword || action is SendMd5 || action is SendSaslInitial
            || action is SendSaslResponse || action is SendStartup,
    ensures
        after.encrypted || fault(h, event, true) is Some,
{
}

/// Settings and the identifier are kept in the order in which they came: a step never takes back
/// what the server announced.
pub proof fn announcements_are_kept(h: Handshake, after: Handshake, event: Event, action: Action)
    requires
        advanced(h, after, event, action),
    ensures
        h.params@.len() <= after.params@.len(),
        after.params@.take(h.params@.len() as int) == h.params@,
        h.key_data is Some ==> after.key_data is Some,
        after.tls_mode == h.tls_mode,
        h.encrypted ==> after.encrypted,
{
}

/// What came of trying one secret.
#[derive(Debug)]
pub enum Attempt {
    /// The connection was made.
    Connected(Server),
    /// The server refused, because the secret is wrong (`bad_password`) or for another reason.
    Refused { error: ErrorResponse, bad_password: bool },
    /// Something else went wrong.
    Failed(Error),
}

/// What to do after a secret was tried.
#[derive(Debug)]
pub enum Verdict {
    /// The secret is right, and this is the connection.
    Accept(Server),
    /// The secret is wrong; try the one of this number.
    TryNext(usize),
    /// The secret is wrong, and there are no more.
    Exhausted(Error),
    /// Give up.
    GiveUp(Error),
}

/// The first secret to try out of so many.
pub open spec fn first_of(total: usize, refusal: ErrorResponse) -> Result<usize, Error> {
    if total > 0 {
        Ok::<usize, Error>(0)
    } else {
        Err(Error::ConnectionError(refusal))
    }
}

/// What to do after the secret of number `idx` out of `total` was tried.
pub open spec fn verdict_on(
    idx: usize,
    total: usize,
    attempt: Attempt,
    refusal: ErrorResponse,
) -> Verdict {
    match attempt {
        Attempt::Connected(server) => Verdict::Accept(
            Server { password_attempts: (idx + 1) as usize, ..server },
        ),
        Attempt::Refused { error, bad_password } => if !bad_password {
            Verdict::GiveUp(Error::ConnectionError(error))
        } else if idx + 1 < total {
            Verdict::TryNext((idx + 1) as usize)
        } else {
            Verdict::Exhausted(Error::ConnectionError(refusal))
        },
        Attempt::Failed(e) => Verdict::GiveUp(e),
    }
}

impl Server {
    /// The first secret to try, if there is one; otherwise the connection is refused.
    pub fn connect_first(total: usize, refusal: ErrorResponse) -> (r: Result<usize, Error>)
        ensures
            r == first_of(total, refusal),
    {
        if total > 0 {
            Ok(0)
        } else {
            Err(Error::ConnectionError(refusal))
        }
    }

    /// Say what to do after the secret of number `idx` out of `total` was tried. Secrets are tried
    /// in order, and only a wrong secret leads to the next one.
    pub fn connect(idx: usize, total: usize, attempt: Attempt, refusal: ErrorResponse) -> (r:
        Verdict)
        requires
            idx < total,
        ensures
            r == verdict_on(idx, total, attempt, refusal),
    {
        match attempt {
            Attempt::Connected(server) => {
                let mut server = server;
                server.password_attempts = idx + 1;
                Verdict::Accept(server)
            },
            Attempt::Refused { error, bad_password } => {
                if !bad_password {
                    Verdict::GiveUp(Error::ConnectionError(error))
                } else if idx + 1 < total {
                    Verdict::TryNext(idx + 1)
                } else {
                    Verdict::Exhausted(Error::ConnectionError(refusal))
                }
            },
            Attempt::Failed(err) => Verdict::GiveUp(err),
        }
    }
}

/// Encryption is asked for unless it is off, and is never done without where the server has to be
/// verified: a server that does not offer it is refused then, and only then.
pub proof fn encryption_is_asked_for(
    before: Handshake,
    after: Handshake,
    event: Event,
    name_valid: bool,
    r: Result<Action, Error>,
)
    requires
        answered(before, after, event, name_valid, r),
    ensures
        event is Opened ==> (r == Ok::<Action, Error>(Action::RequestTls) <==> before.tls_mode
            != TlsVerifyMode::Disabled),
        event is Opened && before.tls_mode == TlsVerifyMode::Disabled ==> r == Ok::<Action, Error>(
            Action::SendStartup,
        ),
        event == Event::TlsReply(false) ==> (r == Err::<Action, Error>(Error::TlsRequired)
            <==> before.tls_mode == TlsVerifyMode::VerifyFull || before.tls_mode
            == TlsVerifyMode::VerifyCa),
        event == Event::TlsReply(false) && r is Ok ==> r == Ok::<Action, Error>(Action::SendStartup)
            && after.encrypted == before.encrypted,
        event == Event::TlsReply(true) ==> r == Ok::<Action, Error>(Action::MakeConnector),
        event matches Event::ConnectorFailed(e) ==> r == Err::<Action, Error>(e),
        event is ConnectorMade && !name_valid ==> r == Err::<Action, Error>(
            Error::InvalidServerName,
        ),
        event is ConnectorMade && name_valid ==> (r matches Ok(Action::StartTls(name)) && name@
            == before.host@),
        event is TlsEstablished ==> after.encrypted && r == Ok::<Action, Error>(
            Action::SendStartup,
        ),
        event is TlsFailed ==> r is Err,
        !(event is TlsEstablished) ==> after.encrypted == before.encrypted,
        r is Err ==> after == before,
{
}

/// While the pooler proves who it is, each request of the server gets the answer that it asks for, and
/// only its word that the proof is good leads on; a refusal is handed on, and nothing else may come.
pub proof fn each_request_gets_its_answer(
    before: Handshake,
    after: Handshake,
    m: StartupMessage,
    name_valid: bool,
    r: Result<Action, Error>,
)
    requires
        answered(before, after, Event::Message(m), name_valid, r),
        before.phase == Phase::Authenticating,
    ensures
        m matches StartupMessage::Error(e) ==> r == Err::<Action, Error>(Error::ConnectionError(e)),
        m matches StartupMessage::Authentication(Authentication::Accepted) ==> r == Ok::<
            Action,
            Error,
        >(Action::Read) && after.phase == Phase::Starting,
        m matches StartupMessage::Authentication(Authentication::ClearTextPassword) ==> r == Ok::<
            Action,
            Error,
        >(Action::SendPassword),
        m matches StartupMessage::Authentication(Authentication::Sasl) ==> r == Ok::<Action, Error>(
            Action::SendSaslInitial,
        ) && after.auth_type == AuthType::Scram,
        m matches StartupMessage::Authentication(Authentication::SaslContinue(data)) ==> r == Ok::<
            Action,
            Error,
        >(Action::SendSaslResponse(data)),
        m matches StartupMessage::Authentication(Authentication::SaslFinal(data)) ==> r == Ok::<
            Action,
            Error,
        >(Action::VerifySaslFinal(data)),
        m matches StartupMessage::Authentication(Authentication::Md5(salt)) ==> r == Ok::<
            Action,
            Error,
        >(Action::SendMd5(salt)) && after.auth_type == AuthType::Md5,
        after.phase != Phase::Authenticating ==> (
        m matches StartupMessage::Authentication(Authentication::Accepted)),
        m is ReadyForQuery || m is ParameterStatus || m is KeyData || m is Notice || m is Other
            ==> r matches Err(Error::UnexpectedMessage(_)),
{
}

/// While the session begins, everything that the server announces is kept, and the session has begun
/// once the server is ready. A refusal is handed on, and nobody is asked for a proof any more.
pub proof fn announcements_begin_the_session(
    before: Handshake,
    after: Handshake,
    m: StartupMessage,
    name_valid: bool,
    r: Result<Action, Error>,
)
    requires
        answered(before, after, Event::Message(m), name_valid, r),
        before.phase == Phase::Starting,
    ensures
        m is ReadyForQuery ==> r == Ok::<Action, Error>(Action::Finish) && after.phase
            == Phase::Ready,
        m matches StartupMessage::ParameterStatus(p) ==> r == Ok::<Action, Error>(Action::Read)
            && after.params@ == before.params@.push(p),
        m matches StartupMessage::KeyData(k) ==> r == Ok::<Action, Error>(Action::Read)
            && after.key_data == Some(k),
        m is Notice ==> r == Ok::<Action, Error>(Action::Read) && after == before,
        m matches StartupMessage::Error(e) ==> r == Err::<Action, Error>(Error::ConnectionError(e)),
        m is Authentication || m is Other ==> r matches Err(Error::UnexpectedMessage(_)),
        !(m is ParameterStatus) ==> after.params == before.params,
        !(m is KeyData) ==> after.key_data == before.key_data,
{
}

/// Passwords are tried one after the other: a wrong one leads to the next, and the last wrong one to
/// a refusal; a right one is used, and it is known how many it took. Anything else that goes wrong
/// ends the attempt at once, with the error that it was.
pub proof fn wrong_passwords_lead_to_the_next(
    idx: usize,
    total: usize,
    attempt: Attempt,
    refusal: ErrorResponse,
)
    requires
        idx < total,
    ensures
        verdict_on(idx, total, attempt, refusal) matches Verdict::TryNext(n) ==> n == idx + 1 && n
            < total && (attempt matches Attempt::Refused { error, bad_password } && bad_password),
        verdict_on(idx, total, attempt, refusal) matches Verdict::Exhausted(e) ==> idx + 1 == total
            && e == Error::ConnectionError(refusal) && (attempt matches Attempt::Refused {
            error,
            bad_password,
        } && bad_password),
        verdict_on(idx, total, attempt, refusal) matches Verdict::Accept(s) ==> s.password_attempts
            == idx + 1 && (attempt matches Attempt::Connected(given) && given.id == s.id
            && given.stats == s.stats),
        verdict_on(idx, total, attempt, refusal) matches Verdict::GiveUp(e) ==> attempt
            == Attempt::Failed(e) || (attempt matches Attempt::Refused { error, bad_password }
            && !bad_password && e == Error::ConnectionError(error)),
        attempt is Failed ==> verdict_on(idx, total, attempt, refusal) is GiveUp,
        attempt is Connected ==> verdict_on(idx, total, attempt, refusal) is Accept,
        first_of(total, refusal) == Ok::<usize, Error>(0),
        first_of(0, refusal) == Err::<usize, Error>(Error::ConnectionError(refusal)),
{
}

} // verus!
