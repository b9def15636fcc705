//! The library's error type and the outside errors that it carries.
use vstd::prelude::*;

verus! {

#[verifier::external_type_specification]
#[verifier::external_body]
pub struct ExPostgresError(tokio_postgres::Error);

#[verifier::external_type_specification]
#[verifier::external_body]
pub struct ExRedisError(mobc_redis::redis::RedisError);

#[verifier::external_type_specification]
#[verifier::external_body]
pub struct ExJsonError(serde_json::Error);

#[verifier::external_type_specification]
#[verifier::reject_recursive_types(E)]
pub struct ExPoolError<E>(mobc::Error<E>);

/// Failures of a connection pool that are not failures of the store behind it.
#[derive(Debug, PartialEq, Eq, Structural)]
pub enum MobcErr {
    Timeout,
    BadConn,
    PoolClosed,
}

/// Raised where a row was expected and none came back.
#[derive(Debug, PartialEq, Eq)]
pub struct MissingRowError {
    pub message: String,
}

impl MissingRowError {
    pub fn from_str(message: &str) -> (r: Self)
        ensures
            r.message@ == message@,
    {
        MissingRowError { message: String::from_str(message) }
    }
}

/// Everything that can go wrong while talking to the durable store or the cache.
#[derive(Debug)]
pub enum PachyDarn {
    Postgres(tokio_postgres::Error),
    MobcPG(MobcErr),
    MobcRedis(MobcErr),
    MissingRow(MissingRowError),
    Redis(mobc_redis::redis::RedisError),
    SerdeJSON(serde_json::Error),
}

impl From<mobc::Error<tokio_postgres::Error>> for PachyDarn {
    fn from(err: mobc::Error<tokio_postgres::Error>) -> (r: Self) {
        match err {
            mobc::Error::Inner(e) => PachyDarn::Postgres(e),
            mobc::Error::Timeout => PachyDarn::MobcPG(MobcErr::Timeout),
            mobc::Error::BadConn => PachyDarn::MobcPG(MobcErr::BadConn),
            mobc::Error::PoolClosed => PachyDarn::MobcPG(MobcErr::PoolClosed),
        }
    }
}

impl vstd::std_specs::convert::FromSpecImpl<mobc::Error<tokio_postgres::Error>> for PachyDarn {
    open spec fn obeys_from_spec() -> bool {
        true
    }

    open spec fn from_spec(err: mobc::Error<tokio_postgres::Error>) -> PachyDarn {
        match err {
            mobc::Error::Inner(e) => PachyDarn::Postgres(e),
            mobc::Error::Timeout => PachyDarn::MobcPG(MobcErr::Timeout),
            mobc::Error::BadConn => PachyDarn::MobcPG(MobcErr::BadConn),
            mobc::Error::PoolClosed => PachyDarn::MobcPG(MobcErr::PoolClosed),
        }
    }
}

impl From<mobc::Error<mobc_redis::redis::RedisError>> for PachyDarn {
    fn from(err: mobc::Error<mobc_redis::redis::RedisError>) -> (r: Self) {
        match err {
            mobc::Error::Inner(e) => PachyDarn::Redis(e),
            mobc::Error::Timeout => PachyDarn::MobcRedis(MobcErr::Timeout),
            mobc::Error::BadConn => PachyDarn::MobcRedis(MobcErr::BadConn),
            mobc::Error::PoolClosed => PachyDarn::MobcRedis(MobcErr::PoolClosed),
        }
    }
}

impl vstd::std_specs::convert::FromSpecImpl<mobc::Error<mobc_redis::redis::RedisError>> for PachyDarn {
    open spec fn obeys_from_spec() -> bool {
        true
    }

    open spec fn from_spec(err: mobc::Error<mobc_redis::redis::RedisError>) -> PachyDarn {
        match err {
            mobc::Error::Inner(e) => PachyDarn::Redis(e),
            mobc::Error::Timeout => PachyDarn::MobcRedis(MobcErr::Timeout),
            mobc::Error::BadConn => PachyDarn::MobcRedis(MobcErr::BadConn),
            mobc::Error::PoolClosed => PachyDarn::MobcRedis(MobcErr::PoolClosed),
        }
    }
}

impl From<mobc_redis::redis::RedisError> for PachyDarn {
    fn from(err: mobc_redis::redis::RedisError) -> (r: Self) {
        PachyDarn::Redis(err)
    }
}

impl vstd::std_specs::convert::FromSpecImpl<mobc_redis::redis::RedisError> for PachyDarn {
    open spec fn obeys_from_spec() -> bool {
        true
    }

    open spec fn from_spec(err: mobc_redis::redis::RedisError) -> PachyDarn {
        PachyDarn::Redis(err)
    }
}

impl From<serde_json::Error> for PachyDarn {
    fn from(err: serde_json::Error) -> (r: Self) {
        PachyDarn::SerdeJSON(err)
    }
}

impl vstd::std_specs::convert::FromSpecImpl<serde_json::Error> for PachyDarn {
    open spec fn obeys_from_spec() -> bool {
        true
    }

    open spec fn from_spec(err: serde_json::Error) -> PachyDarn {
        PachyDarn::SerdeJSON(err)
    }
}

impl From<tokio_postgres::Error> for PachyDarn {
    fn from(err: tokio_postgres::Error) -> (r: Self) {
        PachyDarn::Postgres(err)
    }
}

impl vstd::std_specs::convert::FromSpecImpl<tokio_postgres::Error> for PachyDarn {
    open spec fn obeys_from_spec() -> bool {
        true
    }

    open spec fn from_spec(err: tokio_postgres::Error) -> PachyDarn {
        PachyDarn::Postgres(err)
    }
}

impl From<MissingRowError> for PachyDarn {
    fn from(err: MissingRowError) -> (r: Self) {
        PachyDarn::MissingRow(err)
    }
}

impl vstd::std_specs::convert::FromSpecImpl<MissingRowError> for PachyDarn {
    open spec fn obeys_from_spec() -> bool {
        true
    }

    open spec fn from_spec(err: MissingRowError) -> PachyDarn {
        PachyDarn::MissingRow(err)
    }
}

/// The row where there is one, else the missing-row error with `message`.
pub fn require_row<T>(found: Option<T>, message: &str) -> (r: Result<T, PachyDarn>)
    ensures
        match r {
            Ok(v) => found == Some(v),
            Err(PachyDarn::MissingRow(e)) => found is None && e.message@ == message@,
            Err(_) => false,
        },
{
    match found {
        Some(v) => Ok(v),
        None => Err(PachyDarn::MissingRow(MissingRowError::from_str(message))),
    }
}

} // verus!
