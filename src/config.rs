//! The engine's configuration: how it is assembled from a file and from
//! command-line values, and which store it selects.
use vstd::prelude::*;

verus! {

/// SQLite database used when no store is named.
pub const DEFAULT_SQLITE_PATH: &'static str = "flag.db";

/// Seconds between two cycles when none is given.
pub const DEFAULT_CHECK_INTERVAL: u8 = 10;

/// Flags released per second when no quota is given.
pub const DEFAULT_FLAGS_QUOTA: u8 = 25;

/// Immutable settings of a run.
#[derive(Debug, Clone)]
pub struct Config {
    /// Path of a SQLite database.
    pub sqlite: Option<String>,
    /// Connection settings of a PostgreSQL database.
    pub postgres: Option<String>,
    /// Endpoint that flags are posted to.
    pub server_url: String,
    /// Team credential sent with every flag.
    pub team_token: String,
    /// Seconds between two cycles.
    pub check_interval: u8,
    /// Largest number of flags released per second.
    pub flags_quota: u8,
    /// Run one cycle and stop, instead of running forever.
    pub single_run: Option<bool>,
}

/// Values given on the command line; each one given replaces the file's.
#[derive(Debug, Clone)]
pub struct ConfigOverrides {
    pub sqlite: Option<String>,
    pub postgres: Option<String>,
    pub server_url: Option<String>,
    pub team_token: Option<String>,
    pub check_interval: Option<u8>,
    pub flags_quota: Option<u8>,
    /// Whether a single run was asked for.
    pub single_run: bool,
}

/// Why a configuration cannot be run.
#[derive(Debug, Clone, Copy, PartialEq, Eq, Structural)]
pub enum ConfigError {
    /// Neither a SQLite nor a PostgreSQL store is named.
    NoStore,
    /// No endpoint URL is given.
    NoServerUrl,
    /// No team credential is given.
    NoTeamToken,
    /// The quota is zero, so no flag could ever be released.
    ZeroQuota,
    /// The interval between cycles is zero.
    ZeroInterval,
}

/// The store a configuration selects.
#[derive(Debug, Clone)]
pub enum StoreTarget {
    /// A SQLite database at this path.
    Sqlite(String),
    /// A PostgreSQL database with these connection settings.
    Postgres(String),
}

/// `given` if there is one, else `current`.
pub open spec fn pick<T>(given: Option<T>, current: T) -> T {
    match given {
        Some(v) => v,
        None => current,
    }
}

/// `given` if it holds a value, else `current`.
pub open spec fn pick_opt<T>(given: Option<T>, current: Option<T>) -> Option<T> {
    if given is Some {
        given
    } else {
        current
    }
}

/// The error, if any, of a configuration with these values; the store comes
/// first, then quota, then interval.
pub open spec fn config_error(c: &Config) -> Option<ConfigError> {
    if c.sqlite is None && c.postgres is None {
        Some(ConfigError::NoStore)
    } else if c.flags_quota == 0 {
        Some(ConfigError::ZeroQuota)
    } else if c.check_interval == 0 {
        Some(ConfigError::ZeroInterval)
    } else {
        None
    }
}

/// The store a configuration selects: SQLite when a path is given, else
/// PostgreSQL when settings are given, else none.
pub open spec fn store_target_of(c: &Config) -> Option<StoreTarget> {
    match c.sqlite {
        Some(p) => Some(StoreTarget::Sqlite(p)),
        None => match c.postgres {
            Some(p) => Some(StoreTarget::Postgres(p)),
            None => None,
        },
    }
}

impl Config {
    /// Checks that the configuration can be run.
    pub fn validate(&self) -> (r: Result<(), ConfigError>)
        ensures
            r is Ok <==> config_error(self) is None,
            r matches Err(e) ==> config_error(self) == Some(e),
    {
        if self.sqlite.is_none() && self.postgres.is_none() {
            Err(ConfigError::NoStore)
        } else if self.flags_quota == 0 {
            Err(ConfigError::ZeroQuota)
        } else if self.check_interval == 0 {
            Err(ConfigError::ZeroInterval)
        } else {
            Ok(())
        }
    }

    /// Replaces each value that `o` gives; a single run asked for on the
    /// command line sets `single_run`.
    pub fn apply(&mut self, o: ConfigOverrides)
        ensures
            final(self).sqlite == pick_opt(o.sqlite, old(self).sqlite),
            final(self).postgres == pick_opt(o.postgres, old(self).postgres),
            final(self).server_url == pick(o.server_url, old(self).server_url),
            final(self).team_token == pick(o.team_token, old(self).team_token),
            final(self).check_interval == pick(o.check_interval, old(self).check_interval),
            final(self).flags_quota == pick(o.flags_quota, old(self).flags_quota),
            final(self).single_run == (if o.single_run {
                Some(true)
            } else {
                old(self).single_run
            }),
    {
        let ConfigOverrides {
            sqlite,
            postgres,
            server_url,
            team_token,
            check_interval,
            flags_quota,
            single_run,
        } = o;
        if let Some(v) = sqlite {
            self.sqlite = Some(v);
        }
        if let Some(v) = postgres {
            self.postgres = Some(v);
        }
        if let Some(v) = server_url {
            self.server_url = v;
        }
        if let Some(v) = team_token {
            self.team_token = v;
        }
        if let Some(v) = check_interval {
            self.check_interval = v;
        }
        if let Some(v) = flags_quota {
            self.flags_quota = v;
        }
        if single_run {
            self.single_run = Some(true);
        }
    }

    /// A configuration from command-line values alone. The endpoint and the
    /// credential must be given; interval and quota fall back to their
    /// defaults; with no store named, the default SQLite path is used.
    pub fn from_overrides(o: ConfigOverrides) -> (r: Result<Config, ConfigError>)
        ensures
            o.server_url is None <==> r == Err::<Config, ConfigError>(ConfigError::NoServerUrl),
            o.server_url is Some && o.team_token is None <==> r == Err::<Config, ConfigError>(
                ConfigError::NoTeamToken,
            ),
            o.server_url is Some && o.team_token is Some <==> r is Ok,
            r matches Ok(c) ==> {
                &&& Some(c.server_url) == o.server_url
                &&& Some(c.team_token) == o.team_token
                &&& c.check_interval == pick(o.check_interval, DEFAULT_CHECK_INTERVAL)
                &&& c.flags_quota == pick(o.flags_quota, DEFAULT_FLAGS_QUOTA)
                &&& c.single_run == Some(o.single_run)
                &&& c.postgres == o.postgres
                &&& (o.sqlite is None && o.postgres is None ==> (c.sqlite matches Some(p) && p@
                    == DEFAULT_SQLITE_PATH@))
                &&& (o.sqlite is Some || o.postgres is Some ==> c.sqlite == o.sqlite)
            },
    {
        let ConfigOverrides {
            sqlite,
            postgres,
            server_url,
            team_token,
            check_interval,
            flags_quota,
            single_run,
        } = o;
        let server_url = match server_url {
            Some(v) => v,
            None => return Err(ConfigError::NoServerUrl),
        };
        let team_token = match team_token {
            Some(v) => v,
            None => return Err(ConfigError::NoTeamToken),
        };
        let sqlite = if sqlite.is_none() && postgres.is_none() {
            Some(DEFAULT_SQLITE_PATH.to_owned())
        } else {
            sqlite
        };
        Ok(Config {
            sqlite,
            postgres,
            server_url,
            team_token,
            check_interval: match check_interval {
                Some(v) => v,
                None => DEFAULT_CHECK_INTERVAL,
            },
            flags_quota: match flags_quota {
                Some(v) => v,
                None => DEFAULT_FLAGS_QUOTA,
            },
            single_run: Some(single_run),
        })
    }

    /// The store to use: SQLite when a path is given, else PostgreSQL.
    pub fn store_target(&self) -> (r: Option<StoreTarget>)
        ensures
            r == store_target_of(self),
    {
        match &self.sqlite {
            Some(p) => Some(StoreTarget::Sqlite(p.clone())),
            None => match &self.postgres {
                Some(p) => Some(StoreTarget::Postgres(p.clone())),
                None => None,
            },
        }
    }

    /// Whether cycles repeat until the process is stopped.
    pub fn runs_forever(&self) -> (r: bool)
        ensures
            r == !(self.single_run == Some(true)),
    {
        match self.single_run {
            Some(true) => false,
            _ => true,
        }
    }

    /// Time between two cycles, in milliseconds.
    pub fn cycle_period_ms(&self) -> (r: u64)
        ensures
            r == self.check_interval * 1000,
    {
        self.check_interval as u64 * 1000
    }

    /// Largest number of flags released per window.
    pub fn quota(&self) -> (r: usize)
        ensures
            r == self.flags_quota,
    {
        self.flags_quota as usize
    }
}

} // verus!
