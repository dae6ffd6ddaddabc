//! The kinds of relational database the credential store can run on.

use vstd::prelude::*;
use vstd::string::*;
use crate::text::{decimal, push_decimal, same_text};

verus! {

/// Lower-case form of a text, by Unicode case mapping.
pub uninterp spec fn lower_of(s: Seq<char>) -> Seq<char>;

/// Relies on `str::to_lowercase`: the result depends on the characters alone.
#[verifier::external_body]
fn to_lowercase(s: &str) -> (r: String)
    ensures
        r@ == lower_of(s@),
{
    s.to_lowercase()
}

#[derive(PartialEq, Eq, Structural, Clone, Copy, Debug)]
pub enum DbType {
    Mysql,
    Postgres,
}

/// The database a configured name selects: PostgreSQL by either of its
/// names in any case, MySQL otherwise.
pub open spec fn db_type_named(lowered: Seq<char>) -> DbType {
    if lowered == "postgres"@ || lowered == "postgresql"@ {
        DbType::Postgres
    } else {
        DbType::Mysql
    }
}

impl DbType {
    pub fn from_str(s: &str) -> (r: DbType)
        ensures
            r == db_type_named(lower_of(s@)),
    {
        let lowered = to_lowercase(s);
        if same_text(lowered.as_str(), "postgres") || same_text(lowered.as_str(), "postgresql") {
            DbType::Postgres
        } else {
            DbType::Mysql
        }
    }

    pub fn as_str(&self) -> (r: &'static str)
        ensures
            r@ == match self {
                DbType::Mysql => "mysql"@,
                DbType::Postgres => "postgres"@,
            },
    {
        match self {
            DbType::Mysql => "mysql",
            DbType::Postgres => "postgres",
        }
    }

    /// A pictogram for log lines: a dolphin or an elephant.
    pub fn emoji(&self) -> (r: &'static str)
        ensures
            r@ == match self {
                DbType::Mysql => "\u{1f42c}"@,
                DbType::Postgres => "\u{1f418}"@,
            },
    {
        match self {
            DbType::Mysql => "\u{1f42c}",
            DbType::Postgres => "\u{1f418}",
        }
    }
}

/// The connection URL for a database server.
pub open spec fn connection_url(
    db_type: DbType,
    host: Seq<char>,
    port: u16,
    user: Seq<char>,
    password: Seq<char>,
    database: Seq<char>,
) -> Seq<char> {
    let scheme = match db_type {
        DbType::Mysql => "mysql://"@,
        DbType::Postgres => "postgres://"@,
    };
    let suffix = match db_type {
        DbType::Mysql => "?ssl-mode=disabled"@,
        DbType::Postgres => Seq::empty(),
    };
    scheme + user + ":"@ + password + "@"@ + host + ":"@ + decimal(port as nat) + "/"@ + database + suffix
}

pub fn build_connection_url(
    db_type: DbType,
    host: &str,
    port: u16,
    user: &str,
    password: &str,
    database: &str,
) -> (r: String)
    ensures
        r@ == connection_url(db_type, host@, port, user@, password@, database@),
{
    let mut url = match db_type {
        DbType::Mysql => String::from_str("mysql://"),
        DbType::Postgres => String::from_str("postgres://"),
    };
    url.append(user);
    url.append(":");
    url.append(password);
    url.append("@");
    url.append(host);
    url.append(":");
    push_decimal(&mut url, port as u64);
    url.append("/");
    url.append(database);
    match db_type {
        DbType::Mysql => {
            url.append("?ssl-mode=disabled");
        },
        DbType::Postgres => {},
    }
    assert(url@ =~= connection_url(db_type, host@, port, user@, password@, database@));
    url
}

/// What to do after an attempt to connect at startup.
#[derive(PartialEq, Eq, Structural, Clone, Copy, Debug)]
pub enum ConnectAction {
    /// The connection is up.
    Connected,
    /// Wait this many seconds, then try again.
    RetryAfter(u64),
    /// Retries are used up; startup fails.
    GiveUp,
}

/// Startup connection retries: a fixed delay and a cap on the number of
/// retries after the first attempt.
pub struct ConnectRetry {
    retries: u32,
    max_retries: u32,
    delay_secs: u64,
}

impl ConnectRetry {
    pub closed spec fn wf(&self) -> bool {
        self.retries <= self.max_retries
    }

    /// Retries made so far.
    pub closed spec fn retries(&self) -> u32 {
        self.retries
    }

    pub closed spec fn max_retries(&self) -> u32 {
        self.max_retries
    }

    pub closed spec fn delay_secs(&self) -> u64 {
        self.delay_secs
    }

    pub fn new(max_retries: u32, delay_secs: u64) -> (r: ConnectRetry)
        ensures
            r.wf(),
            r.retries() == 0,
            r.max_retries() == max_retries,
            r.delay_secs() == delay_secs,
    {
        ConnectRetry { retries: 0, max_retries, delay_secs }
    }

    /// Decides after an attempt: done when it connected, another try after
    /// the delay while retries remain, giving up once they are used.
    pub fn on_attempt(&mut self, connected: bool) -> (r: ConnectAction)
        requires
            old(self).wf(),
        ensures
            final(self).wf(),
            final(self).max_retries() == old(self).max_retries(),
            final(self).delay_secs() == old(self).delay_secs(),
            connected ==> r == ConnectAction::Connected && final(self).retries() == old(self).retries(),
            !connected && old(self).retries() < old(self).max_retries() ==> r == ConnectAction::RetryAfter(
                old(self).delay_secs(),
            ) && final(self).retries() == old(self).retries() + 1,
            !connected && old(self).retries() >= old(self).max_retries() ==> r == ConnectAction::GiveUp
                && final(self).retries() == old(self).retries(),
    {
        if connected {
            ConnectAction::Connected
        } else if self.retries < self.max_retries {
            self.retries = self.retries + 1;
            ConnectAction::RetryAfter(self.delay_secs)
        } else {
            ConnectAction::GiveUp
        }
    }
}

} // verus!
