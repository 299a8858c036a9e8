use flag_submitter::{Config, ConfigError, ConfigOverrides, StoreTarget};

fn base() -> Config {
    Config {
        sqlite: Some(String::from("flags.db")),
        postgres: None,
        server_url: String::from("http://10.10.0.1/submit"),
        team_token: String::from("token"),
        check_interval: 10,
        flags_quota: 25,
        single_run: None,
    }
}

fn no_overrides() -> ConfigOverrides {
    ConfigOverrides {
        sqlite: None,
        postgres: None,
        server_url: None,
        team_token: None,
        check_interval: None,
        flags_quota: None,
        single_run: false,
    }
}

#[test]
fn valid_config_passes() {
    assert_eq!(base().validate(), Ok(()));
}

#[test]
fn config_without_store_is_refused() {
    let mut c = base();
    c.sqlite = None;
    assert_eq!(c.validate(), Err(ConfigError::NoStore));
    c.postgres = Some(String::from("host=localhost user=flags"));
    assert_eq!(c.validate(), Ok(()));
}

#[test]
fn zero_quota_and_interval_are_refused() {
    let mut c = base();
    c.flags_quota = 0;
    assert_eq!(c.validate(), Err(ConfigError::ZeroQuota));
    let mut c = base();
    c.check_interval = 0;
    assert_eq!(c.validate(), Err(ConfigError::ZeroInterval));
}

#[test]
fn overrides_replace_given_values_only() {
    let mut c = base();
    let mut o = no_overrides();
    o.flags_quota = Some(5);
    o.server_url = Some(String::from("http://other/"));
    o.single_run = true;
    c.apply(o);
    assert_eq!(c.flags_quota, 5);
    assert_eq!(c.server_url, "http://other/");
    assert_eq!(c.single_run, Some(true));
    assert_eq!(c.check_interval, 10);
    assert_eq!(c.team_token, "token");
    assert_eq!(c.sqlite.as_deref(), Some("flags.db"));
    assert!(!c.runs_forever());
}

#[test]
fn no_overrides_change_nothing() {
    let mut c = base();
    c.apply(no_overrides());
    assert_eq!(c.single_run, None);
    assert!(c.runs_forever());
    assert_eq!(c.flags_quota, 25);
}

#[test]
fn arguments_alone_need_url_and_token() {
    assert_eq!(Config::from_overrides(no_overrides()).err(), Some(ConfigError::NoServerUrl));
    let mut o = no_overrides();
    o.server_url = Some(String::from("http://x/"));
    assert_eq!(Config::from_overrides(o).err(), Some(ConfigError::NoTeamToken));
}

#[test]
fn arguments_alone_take_defaults() {
    let mut o = no_overrides();
    o.server_url = Some(String::from("http://x/"));
    o.team_token = Some(String::from("t"));
    let c = Config::from_overrides(o).unwrap();
    assert_eq!(c.sqlite.as_deref(), Some("flag.db"));
    assert_eq!(c.postgres, None);
    assert_eq!(c.check_interval, 10);
    assert_eq!(c.flags_quota, 25);
    assert_eq!(c.single_run, Some(false));
    assert!(c.runs_forever());
    assert_eq!(c.cycle_period_ms(), 10_000);
    assert_eq!(c.quota(), 25);
}

#[test]
fn postgres_argument_selects_postgres() {
    let mut o = no_overrides();
    o.server_url = Some(String::from("http://x/"));
    o.team_token = Some(String::from("t"));
    o.postgres = Some(String::from("host=db"));
    let c = Config::from_overrides(o).unwrap();
    assert_eq!(c.sqlite, None);
    assert!(matches!(c.store_target(), Some(StoreTarget::Postgres(p)) if p == "host=db"));
}

#[test]
fn sqlite_is_preferred_when_both_are_named() {
    let mut c = base();
    c.postgres = Some(String::from("host=db"));
    assert!(matches!(c.store_target(), Some(StoreTarget::Sqlite(p)) if p == "flags.db"));
    c.sqlite = None;
    c.postgres = None;
    assert!(c.store_target().is_none());
}

#[test]
fn arguments_naming_both_stores_are_kept() {
    let mut o = no_overrides();
    o.sqlite = Some(String::from("f.db"));
    o.postgres = Some(String::from("host=h"));
    o.server_url = Some(String::from("http://s/submit"));
    o.team_token = Some(String::from("TOK"));
    let c = Config::from_overrides(o).unwrap();
    assert_eq!(c.sqlite.as_deref(), Some("f.db"));
    assert_eq!(c.postgres.as_deref(), Some("host=h"));
    assert_eq!(c.server_url, "http://s/submit");
    assert_eq!(c.team_token, "TOK");
    assert_eq!(c.check_interval, 10);
    assert_eq!(c.flags_quota, 25);
    assert_eq!(c.single_run, Some(false));
}
