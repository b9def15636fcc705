use pachydurable::borg::{BorgAction, BorgMachine, BorgPhase, DEFAULT_EXPIRY_R, DEFAULT_PK_MAX_CT};
use pachydurable::connect::{no_row_message, SimpleConfig};
use pachydurable::err::{require_row, MissingRowError, MobcErr, PachyDarn};
use pachydurable::redis::{
    autocomp_key, is_nil_response, new_client, redis_host, redis_key, redis_url, uri_scheme,
    warm_phrases, PreWarmDepth,
};

#[test]
fn autocomp_key_lowercases_phrase() {
    assert_eq!(autocomp_key("animal", "FoX Den"), "autocomp_animal_fox den");
}

#[test]
fn redis_key_joins_params_without_quotes() {
    let params = vec!["\"fox\"".to_string(), "7".to_string()];
    assert_eq!(redis_key("animal", &params), "animal_fox_7");
    assert_eq!(redis_key("animal", &Vec::new()), "animal");
}

#[test]
fn borg_keys_follow_convention() {
    let (m, a) = BorgMachine::new("city", "42", DEFAULT_EXPIRY_R, DEFAULT_PK_MAX_CT);
    assert_eq!(m.key_r, "r_city_42");
    assert_eq!(m.set_key, "pks_city");
    assert_eq!(m.seconds, 7200);
    assert_eq!(m.max_count, 1_000_000);
    assert_eq!(m.phase, BorgPhase::Invocation);
    assert_eq!(a, BorgAction::OnInvocation);
}

#[test]
fn warm_depth_one_counts() {
    let p = warm_phrases(PreWarmDepth::Char1);
    assert_eq!(p.len(), 36);
    assert_eq!(p[0], "a");
    assert_eq!(p[35], "9");
}

#[test]
fn warm_depth_two_counts() {
    let p = warm_phrases(PreWarmDepth::Char2);
    assert_eq!(p.len(), 36 + 36 * 43);
    assert_eq!(p[0], "a");
    assert_eq!(p[1], "aa");
    assert_eq!(p[43], "a ");
    assert_eq!(p[44], "b");
}

#[test]
fn warm_depth_three_counts() {
    let p = warm_phrases(PreWarmDepth::Char3);
    assert_eq!(p.len(), 36 + 36 * 43 + 36 * 43 * 43);
    assert_eq!(p[1], "aa");
    assert_eq!(p[2], "aaa");
    assert_eq!(p[45], "ab");
    assert_eq!(p[p.len() - 1], "9  ");
}

#[test]
fn redis_connection_settings() {
    assert_eq!(uri_scheme(true), "rediss");
    assert_eq!(uri_scheme(false), "redis");
    assert_eq!(redis_host(Some("cache:1".to_string()), Some("7000".to_string())), "cache:1");
    assert_eq!(redis_host(None, Some("7000".to_string())), "127.0.0.1:7000");
    assert_eq!(redis_host(None, None), "127.0.0.1:6379");
    assert_eq!(redis_url("redis", "127.0.0.1:6379", "pw"), "redis://:pw@127.0.0.1:6379");
}

#[test]
fn new_client_parses_url() {
    assert!(new_client("redis", "127.0.0.1:6379", "").is_ok());
    assert!(new_client("nope", "127.0.0.1:6379", "").is_err());
}

#[test]
fn simple_config_defaults() {
    let c = SimpleConfig::from_settings(None, None, None, None, None);
    assert_eq!(c.database, "postgres");
    assert_eq!(c.user, "postgres");
    assert_eq!(c.host, "127.0.0.1");
    assert_eq!(c.port, 5432);
    assert_eq!(c.password, "");
    let c = SimpleConfig::from_settings(
        Some("zoo".to_string()),
        Some("keeper".to_string()),
        Some("db.local".to_string()),
        Some(6000),
        Some("SECRET-REDACTED".to_string()),
    );
    assert_eq!(c.database, "zoo");
    assert_eq!(c.user, "keeper");
    assert_eq!(c.host, "db.local");
    assert_eq!(c.port, 6000);
    assert_eq!(c.password, "SECRET-REDACTED");
}

#[test]
fn missing_row_messages() {
    assert_eq!(no_row_message("SELECT 1"), "No row found for query \"SELECT 1\"");
    assert_eq!(MissingRowError::from_str("gone").message, "gone");
    assert_eq!(require_row(Some(3), "m").ok(), Some(3));
    match require_row::<i32>(None, "nothing here") {
        Err(PachyDarn::MissingRow(e)) => assert_eq!(e.message, "nothing here"),
        _ => panic!("expected a missing-row error"),
    }
}

#[test]
fn nil_response_detection() {
    assert!(is_nil_response("Response was of incompatible type - TypeError: \"response was nil\""));
    assert!(!is_nil_response("connection refused"));
}

#[test]
fn pool_errors_convert() {
    let e = PachyDarn::from(mobc::Error::<tokio_postgres::Error>::Timeout);
    assert!(matches!(e, PachyDarn::MobcPG(MobcErr::Timeout)));
    let e = PachyDarn::from(mobc::Error::<mobc_redis::redis::RedisError>::PoolClosed);
    assert!(matches!(e, PachyDarn::MobcRedis(MobcErr::PoolClosed)));
    let e = PachyDarn::from(mobc::Error::<tokio_postgres::Error>::BadConn);
    assert!(matches!(e, PachyDarn::MobcPG(MobcErr::BadConn)));
    let e = PachyDarn::from(MissingRowError::from_str("x"));
    assert!(matches!(e, PachyDarn::MissingRow(_)));
}
