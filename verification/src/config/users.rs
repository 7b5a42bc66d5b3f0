//! Users of the pooler.

use crate::config::general::PoolerMode;
use crate::text::clone_option;
use vstd::prelude::*;

verus! {

/// Access to the admin database.
#[derive(Debug, PartialEq, Eq)]
pub struct Admin {
    /// Name of the database.
    pub name: String,
    /// Its user.
    pub user: String,
    /// The user's password.
    pub password: String,
}

impl Clone for Admin {
    fn clone(&self) -> (r: Self)
        ensures
            r == *self,
    {
        Admin { name: self.name.clone(), user: self.user.clone(), password: self.password.clone() }
    }
}

/// A plugin that is loaded at start.
#[derive(Debug, PartialEq, Eq)]
pub struct Plugin {
    /// Name of the plugin.
    pub name: String,
}

/// How the pooler proves to a server who it is.
#[derive(Clone, Copy, Debug, PartialEq, Eq, Structural)]
pub enum ServerAuth {
    /// With a password.
    Password,
    /// With a token of AWS.
    RdsIam,
    /// With a token of Azure.
    AzureWorkloadIdentity,
}

impl Default for ServerAuth {
    fn default() -> (r: Self)
        ensures
            r == ServerAuth::Password,
    {
        ServerAuth::Password
    }
}

/// A password that a client may use.
#[derive(Debug, PartialEq, Eq)]
pub enum PasswordKind {
    /// The password itself.
    Plain(String),
    /// A verifier from which the password cannot be told.
    Hashed(String),
}

impl Clone for PasswordKind {
    fn clone(&self) -> (r: Self)
        ensures
            r == *self,
    {
        match self {
            PasswordKind::Plain(s) => PasswordKind::Plain(s.clone()),
            PasswordKind::Hashed(s) => PasswordKind::Hashed(s.clone()),
        }
    }
}

/// A copy of a list of passwords.
pub fn clone_passwords(passwords: &Vec<PasswordKind>) -> (r: Vec<PasswordKind>)
    ensures
        r@ == passwords@,
{
    let mut out: Vec<PasswordKind> = Vec::new();
    for i in 0..passwords.len()
        invariant
            out@ == passwords@.take(i as int),
    {
        out.push(passwords[i].clone());
        assert(out@ == passwords@.take(i + 1));
    }
    assert(passwords@.take(passwords@.len() as int) == passwords@);
    out
}

/// A user of a database.
#[derive(Debug, PartialEq, Eq)]
pub struct User {
    /// Name of the user.
    pub name: String,
    /// Name of the database.
    pub database: String,
    /// Password of the user.
    pub password: Option<String>,
    /// More passwords that the user may use.
    pub passwords: Vec<String>,
    /// Verifier of a password that the user may use.
    pub password_hash: Option<String>,
    /// How the pooler logs in to servers for this user.
    pub server_auth: ServerAuth,
    /// Pooler mode of this user.
    pub pooler_mode: Option<PoolerMode>,
    /// Cross-shard transactions use two-phase commit.
    pub two_phase_commit: Option<bool>,
    /// Cross-shard statements outside of a transaction use two-phase commit.
    pub two_phase_commit_auto: Option<bool>,
    /// Queries on several shards are refused.
    pub cross_shard_disabled: Option<bool>,
    /// Database whose changes are streamed to this one.
    pub replication_sharding: Option<String>,
    /// The user manages the schema.
    pub schema_admin: bool,
}

impl User {
    /// Nothing is set for the user beyond a name, a database and passwords.
    pub open spec fn has_no_settings(&self) -> bool {
        &&& self.server_auth == ServerAuth::Password
        &&& self.pooler_mode is None
        &&& self.two_phase_commit is None
        &&& self.two_phase_commit_auto is None
        &&& self.cross_shard_disabled is None
        &&& self.replication_sharding is None
        &&& !self.schema_admin
    }
}

impl Default for User {
    fn default() -> (r: Self)
        ensures
            r.name@.len() == 0,
            r.database@.len() == 0,
            r.password is None,
            r.passwords@.len() == 0,
            r.password_hash is None,
            r.has_no_settings(),
    {
        User {
            name: String::new(),
            database: String::new(),
            password: None,
            passwords: Vec::new(),
            password_hash: None,
            server_auth: ServerAuth::Password,
            pooler_mode: None,
            two_phase_commit: None,
            two_phase_commit_auto: None,
            cross_shard_disabled: None,
            replication_sharding: None,
            schema_admin: false,
        }
    }
}

impl User {
    /// The user's identity is vouched for by a cloud provider.
    pub open spec fn external(&self) -> bool {
        self.server_auth != ServerAuth::Password
    }

    /// All passwords that the user may use, the main one first and the verifier last.
    pub open spec fn all_passwords(&self) -> Seq<PasswordKind> {
        (match self.password {
            Some(p) => seq![PasswordKind::Plain(p)],
            None => Seq::empty(),
        }) + self.passwords@.map_values(|p: String| PasswordKind::Plain(p)) + (
        match self.password_hash {
            Some(h) => seq![PasswordKind::Hashed(h)],
            None => Seq::empty(),
        })
    }

    /// The user's identity is vouched for by a cloud provider.
    pub fn is_external_identity(&self) -> (r: bool)
        ensures
            r == self.external(),
    {
        match self.server_auth {
            ServerAuth::Password => false,
            ServerAuth::RdsIam => true,
            ServerAuth::AzureWorkloadIdentity => true,
        }
    }

    /// All passwords that the user may use, the main one first and the verifier last.
    pub fn passwords(&self) -> (r: Vec<PasswordKind>)
        ensures
            r@ == self.all_passwords(),
    {
        let mut out: Vec<PasswordKind> = Vec::new();
        match clone_option(&self.password) {
            Some(p) => {
                out.push(PasswordKind::Plain(p));
            },
            None => {},
        }
        let ghost first = out@;
        let ghost more = self.passwords@.map_values(|p: String| PasswordKind::Plain(p));
        assert(first + more.take(0) == first);
        for i in 0..self.passwords.len()
            invariant
                more == self.passwords@.map_values(|p: String| PasswordKind::Plain(p)),
                out@ == first + more.take(i as int),
        {
            out.push(PasswordKind::Plain(self.passwords[i].clone()));
            assert(out@ == first + more.take(i + 1));
        }
        assert(more.take(more.len() as int) == more);
        match clone_option(&self.password_hash) {
            Some(h) => {
                out.push(PasswordKind::Hashed(h));
            },
            None => {},
        }
        assert(out@ == self.all_passwords());
        out
    }
}

/// Contents of the users file.
#[derive(Debug, PartialEq, Eq)]
pub struct Users {
    /// Access to the admin database, in place of what the main file says.
    pub admin: Option<Admin>,
    /// All users.
    pub users: Vec<User>,
}

impl Default for Users {
    fn default() -> (r: Self)
        ensures
            r.admin is None,
            r.users@.len() == 0,
    {
        Users { admin: None, users: Vec::new() }
    }
}

} // verus!
