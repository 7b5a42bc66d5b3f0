//! The configuration together with the users.

use crate::config::check::ConfigWarning;
#[allow(unused_imports)]
use crate::config::check::{all_warnings, corrected};
use crate::config::error::Error;
use crate::config::general::{PassthroughAuth, PoolerMode, PreparedStatements, TlsVerifyMode};
use crate::config::settings::Config;
use crate::config::users::Users;
#[allow(unused_imports)]
use crate::config::users::User;
use crate::text::owned;
#[allow(unused_imports)]
use crate::config::general::General;
use vstd::prelude::*;

verus! {

/// The configuration, the users and where both came from.
#[derive(Debug, PartialEq, Eq)]
pub struct ConfigAndUsers {
    /// Contents of the main file.
    pub config: Config,
    /// Contents of the users file.
    pub users: Users,
    /// Path of the main file.
    pub config_path: String,
    /// Path of the users file.
    pub users_path: String,
}

impl Default for ConfigAndUsers {
    fn default() -> (r: Self)
        ensures
            r.users.admin is None,
            r.users.users@.len() == 0,
            r.config.is_default(),
            r.config.admin.password@.len() == 0,
            r.config_path@ == "pgdog.toml"@,
            r.users_path@ == "users.toml"@,
    {
        ConfigAndUsers {
            config: Config::default(),
            users: Users::default(),
            config_path: owned("pgdog.toml"),
            users_path: owned("users.toml"),
        }
    }
}

/// Some user's identity is vouched for by a cloud provider.
pub open spec fn any_external(users: Seq<User>) -> bool {
    exists|i: int| 0 <= i < users.len() && (#[trigger] users[i]).external()
}

/// What is said where passwords may be passed through and must not.
pub open spec fn passthrough_refused() -> Seq<char> {
    "\"passthrough_auth\" must be \"disabled\" when any user has \"server_auth = \\\"rds_iam\\\"\" or \"server_auth = \\\"azure_workload_identity\\\"\""@
}

/// What is said where certificates are not verified and must be.
pub open spec fn unverified_refused() -> Seq<char> {
    "\"tls_verify\" cannot be \"disabled\" when any user has \"server_auth = \\\"rds_iam\\\"\" or \"server_auth = \\\"azure_workload_identity\\\"\""@
}

/// What is wrong with how the pooler logs in to servers.
pub open spec fn server_auth_fault(c: ConfigAndUsers) -> Option<Seq<char>> {
    if !any_external(c.users.users@) {
        None
    } else if c.config.general.passthrough_auth != PassthroughAuth::Disabled {
        Some(passthrough_refused())
    } else if c.config.general.tls_verify == TlsVerifyMode::Disabled {
        Some(unverified_refused())
    } else {
        None
    }
}

/// The result is a success if there is no fault, else an error that says what it is.
pub open spec fn reports(r: Result<(), Error>, fault: Option<Seq<char>>) -> bool {
    match (r, fault) {
        (Ok(_), None) => true,
        (Err(e), Some(text)) => e.shown() == text,
        _ => false,
    }
}

/// What the main file says: the defaults where it could not be read, with a password for the admin
/// database that nobody chose.
pub open spec fn main_file(
    file: Option<Result<Config, Error>>,
    generated: Seq<char>,
    c: Config,
) -> bool {
    match file {
        Some(Ok(config)) => c == config,
        Some(Err(_)) => false,
        None => c.is_default() && c.admin.password@ == generated,
    }
}

/// What the users file says: nothing where it could not be read.
pub open spec fn users_file(file: Option<Result<Users, Error>>, u: Users) -> bool {
    match file {
        Some(Ok(users)) => u == users,
        Some(Err(_)) => false,
        None => u.admin is None && u.users@.len() == 0,
    }
}

/// The two files put together.
pub open spec fn assembled(
    r: ConfigAndUsers,
    c: Config,
    u: Users,
    config_path: Seq<char>,
    users_path: Seq<char>,
) -> bool {
    &&& r.config == (Config {
        admin: match u.admin {
            Some(admin) => admin,
            None => c.admin,
        },
        ..c
    })
    &&& r.users == (Users { admin: None, ..u })
    &&& r.config_path@ == config_path
    &&& r.users_path@ == users_path
}

/// `r` is what the two files amount to.
pub open spec fn put_together(
    config: Option<Result<Config, Error>>,
    users: Option<Result<Users, Error>>,
    generated: Seq<char>,
    config_path: Seq<char>,
    users_path: Seq<char>,
    r: Result<ConfigAndUsers, Error>,
) -> bool {
    match (config, users) {
        (Some(Err(e)), _) => r == Err::<ConfigAndUsers, Error>(e),
        (_, Some(Err(e))) => r == Err::<ConfigAndUsers, Error>(e),
        _ => r is Ok && exists|c: Config, u: Users| #[trigger]
            main_file(config, generated, c) && #[trigger] users_file(users, u) && assembled(
                r->Ok_0,
                c,
                u,
                config_path,
                users_path,
            ),
    }
}

impl ConfigAndUsers {
    /// Put together what the two files hold. A file that could not be read is given as `None`, one
    /// that could not be understood as an error. Access to the admin database that the users file
    /// gives is moved into the configuration, where it takes the place of what the main file says.
    /// Where there is no main file, `generated` is the password of the admin database.
    pub fn load(
        config_path: &str,
        users_path: &str,
        config: Option<Result<Config, Error>>,
        users: Option<Result<Users, Error>>,
        generated: &str,
    ) -> (r: Result<Self, Error>)
        ensures
            put_together(config, users, generated@, config_path@, users_path@, r),
    {
        let ghost files = (config, users);
        let mut config = match config {
            Some(Ok(config)) => config,
            Some(Err(err)) => {
                return Err(err);
            },
            None => {
                let mut config = Config::default();
                config.admin.password = owned(generated);
                config
            },
        };
        let mut users = match users {
            Some(Ok(users)) => users,
            Some(Err(err)) => {
                return Err(err);
            },
            None => Users::default(),
        };
        let ghost read = (config, users);
        match users.admin.take() {
            Some(admin) => {
                config.admin = admin;
            },
            None => {},
        }
        let out = ConfigAndUsers {
            config,
            users,
            config_path: owned(config_path),
            users_path: owned(users_path),
        };
        assert(main_file(files.0, generated@, read.0) && users_file(files.1, read.1));
        assert(assembled(out, read.0, read.1, config_path@, users_path@));
        Ok(out)
    }

    /// Give every warning that is due, correct the settings, and refuse a configuration under
    /// which a cloud token could reach a server that is not the one it is meant for.
    ///
    /// The users are left as they are: whatever else is to be checked of each of them, such as
    /// whether its password is missing, is not part of this.
    pub fn check(&mut self, warnings: &mut Vec<ConfigWarning>) -> (r: Result<(), Error>)
        ensures
            final(warnings)@ == old(warnings)@ + all_warnings(old(self).config),
            *final(self) == (ConfigAndUsers { config: corrected(old(self).config), ..*old(self) }),
            reports(r, server_auth_fault(*old(self))),
    {
        self.config.check(warnings);
        self.validate_server_auth()
    }

    /// Refuse a configuration under which a cloud token could reach a server that is not the one
    /// it is meant for.
    pub fn validate_server_auth(&self) -> (r: Result<(), Error>)
        ensures
            reports(r, server_auth_fault(*self)),
    {
        let mut is_external_identity = false;
        for i in 0..self.users.users.len()
            invariant
                is_external_identity <==> any_external(self.users.users@.take(i as int)),
        {
            let external = self.users.users[i].is_external_identity();
            proof {
                let before = self.users.users@.take(i as int);
                let after = self.users.users@.take(i + 1);
                if any_external(before) {
                    let k = choose|k: int| 0 <= k < before.len() && (#[trigger] before[k]).external();
                    assert(after[k].external());
                }
                if external {
                    assert(after[i as int].external());
                }
                if any_external(after) && !external {
                    let k = choose|k: int| 0 <= k < after.len() && (#[trigger] after[k]).external();
                    assert(before[k].external());
                }
            }
            if external {
                is_external_identity = true;
            }
        }
        assert(self.users.users@.take(self.users.users@.len() as int) == self.users.users@);
        if !is_external_identity {
            return Ok(());
        }
        if self.config.general.passthrough_auth != PassthroughAuth::Disabled {
            return Err(
                Error::ParseError(
                    owned(
                        "\"passthrough_auth\" must be \"disabled\" when any user has \"server_auth = \\\"rds_iam\\\"\" or \"server_auth = \\\"azure_workload_identity\\\"\"",
                    ),
                ),
            );
        }
        if self.config.general.tls_verify == TlsVerifyMode::Disabled {
            return Err(
                Error::ParseError(
                    owned(
                        "\"tls_verify\" cannot be \"disabled\" when any user has \"server_auth = \\\"rds_iam\\\"\" or \"server_auth = \\\"azure_workload_identity\\\"\"",
                    ),
                ),
            );
        }
        Ok(())
    }

    /// How prepared statements are handled: not at all in session mode.
    pub fn prepared_statements(&self) -> (r: PreparedStatements)
        ensures
            r == effective_level(self.config.general),
    {
        if self.config.general.pooler_mode == PoolerMode::Session {
            PreparedStatements::Disabled
        } else {
            self.config.general.prepared_statements
        }
    }

    /// Statements of the simple protocol are handled.
    pub fn prepared_statements_full(&self) -> (r: bool)
        ensures
            r == (self.config.general.prepared_statements == PreparedStatements::Full),
    {
        self.config.general.prepared_statements.full()
    }

    /// The deprecated parser setting is on.
    pub fn query_parser_enabled(&self) -> (r: bool)
        ensures
            r == self.config.general.query_parser_enabled,
    {
        self.config.general.query_parser_enabled
    }

    /// `LISTEN` and `NOTIFY` are served.
    pub fn pub_sub_enabled(&self) -> (r: bool)
        ensures
            r == (self.config.general.pub_sub_channel_size > 0),
    {
        self.config.general.pub_sub_channel_size > 0
    }
}

/// How prepared statements are handled: a client that keeps its connection needs no help with them.
pub open spec fn effective_level(g: General) -> PreparedStatements {
    if g.pooler_mode == PoolerMode::Session {
        PreparedStatements::Disabled
    } else {
        g.prepared_statements
    }
}

/// Prepared statements are left alone in session mode, whatever is set, and handled as set otherwise.
pub proof fn sessions_keep_their_statements(g: General)
    ensures
        g.pooler_mode == PoolerMode::Session ==> effective_level(g) == PreparedStatements::Disabled,
        g.pooler_mode != PoolerMode::Session ==> effective_level(g) == g.prepared_statements,
{
}

/// No accepted configuration lets a cloud token out to an unverified server or mixes it with
/// passed-through passwords.
pub proof fn accepted_tokens_are_safe(c: ConfigAndUsers)
    requires
        server_auth_fault(c) is None,
        any_external(c.users.users@),
    ensures
        c.config.general.passthrough_auth == PassthroughAuth::Disabled,
        c.config.general.tls_verify != TlsVerifyMode::Disabled,
{
}

/// A file that cannot be understood is an error, the main one first; a file that is missing is none,
/// and leaves the defaults, no users, and a generated password for the admin database.
pub proof fn missing_files_are_no_error(
    config: Option<Result<Config, Error>>,
    users: Option<Result<Users, Error>>,
    generated: Seq<char>,
    config_path: Seq<char>,
    users_path: Seq<char>,
    r: Result<ConfigAndUsers, Error>,
)
    requires
        put_together(config, users, generated, config_path, users_path, r),
    ensures
        config matches Some(Err(e)) ==> r == Err::<ConfigAndUsers, Error>(e),
        !(config matches Some(Err(_))) ==> (users matches Some(Err(e)) ==> r == Err::<
            ConfigAndUsers,
            Error,
        >(e)),
        r is Err ==> (config matches Some(Err(_))) || (users matches Some(Err(_))),
        r is Ok && users is None ==> r->Ok_0.users.users@.len() == 0,
        r is Ok && config is None && users is None ==> r->Ok_0.config.admin.password@ == generated
            && r->Ok_0.config.databases@.len() == 0,
        r is Ok ==> (config matches Some(Ok(c)) ==> r->Ok_0.config.databases == c.databases
            && r->Ok_0.config.general == c.general),
        r is Ok ==> (users matches Some(Ok(u)) ==> r->Ok_0.users.users == u.users && (
        u.admin matches Some(admin) ==> r->Ok_0.config.admin == admin)),
        r is Ok ==> r->Ok_0.config_path@ == config_path && r->Ok_0.users_path@ == users_path,
{
}

} // verus!
