//! Connection settings for the durable store, and the original search expression form.
use vstd::prelude::*;
use crate::textutil::{whitespace_char, lower_of, is_whitespace, lowercase, chars_of, string_of};
use crate::fulltext::prefix_marker;

verus! {

/// The separator placed between two prefix terms.
pub open spec fn term_separator() -> Seq<char> {
    seq![':', '*', ' ', '&', ' ']
}

/// The whitespace-separated words of `s`, joined so that each word but the last is
/// followed by `:* & `.
pub open spec fn spaced_terms(s: Seq<char>) -> Seq<char>
    decreases s.len(),
{
    if s.len() == 0 {
        Seq::empty()
    } else {
        let prev = s.drop_last();
        let rest = spaced_terms(prev);
        let c = s.last();
        if whitespace_char(c) {
            rest
        } else if rest.len() > 0 && whitespace_char(prev.last()) {
            (rest + term_separator()).push(c)
        } else {
            rest.push(c)
        }
    }
}

/// Every whitespace-separated word of `s` as a prefix term `word:*`, the terms joined by
/// ` & `.
pub open spec fn prefix_terms(s: Seq<char>) -> Seq<char> {
    if spaced_terms(s).len() == 0 {
        Seq::empty()
    } else {
        spaced_terms(s) + prefix_marker()
    }
}

/// Prefix terms of the lowercased phrase: "Crimson thread" gives "crimson:* & thread:*".
pub fn ts_expression(phrase: &str) -> (r: String)
    ensures
        r@ == prefix_terms(lower_of(phrase@)),
{
    let lower = lowercase(phrase);
    let v = chars_of(lower.as_str());
    let mut r: Vec<char> = Vec::new();
    let mut i: usize = 0;
    while i < v.len()
        invariant
            i <= v@.len(),
            r@ == spaced_terms(v@.subrange(0, i as int)),
        decreases v.len() - i,
    {
        let c = v[i];
        assert(v@.subrange(0, i as int + 1).drop_last() =~= v@.subrange(0, i as int));
        if !is_whitespace(c) {
            if r.len() > 0 && is_whitespace(v[i - 1]) {
                r.push(':');
                r.push('*');
                r.push(' ');
                r.push('&');
                r.push(' ');
            }
            r.push(c);
        }
        proof {
            let prev = v@.subrange(0, i as int);
            let rest = spaced_terms(prev);
            if !whitespace_char(c) && rest.len() > 0 && whitespace_char(prev.last()) {
                assert(r@ =~= (rest + term_separator()).push(c));
            }
        }
        i = i + 1;
    }
    assert(v@.subrange(0, v@.len() as int) =~= v@);
    if r.len() > 0 {
        r.push(':');
        r.push('*');
        assert(r@ =~= spaced_terms(v@) + prefix_marker());
    }
    string_of(&r)
}

/// How to reach the durable store.
#[derive(Debug, Clone, PartialEq, Eq)]
pub struct SimpleConfig {
    pub host: String,
    pub port: u16,
    pub user: String,
    pub password: String,
    pub database: String,
}

pub const DEFAULT_PSQL_HOST: &'static str = "127.0.0.1";

pub const DEFAULT_PSQL_PORT: u16 = 5432;

pub const DEFAULT_PSQL_USER: &'static str = "postgres";

pub const DEFAULT_PSQL_DB: &'static str = "postgres";

fn or_default(v: Option<String>, default: &str) -> (r: String)
    ensures
        r@ == match v {
            Some(s) => s@,
            None => default@,
        },
{
    match v {
        Some(s) => s,
        None => String::from_str(default),
    }
}

impl SimpleConfig {
    /// A configuration from the settings that were given, with defaults for the rest:
    /// database and user `postgres`, host `127.0.0.1`, port 5432, and an empty password.
    pub fn from_settings(
        database: Option<String>,
        user: Option<String>,
        host: Option<String>,
        port: Option<u16>,
        password: Option<String>,
    ) -> (r: SimpleConfig)
        ensures
            r.database@ == match database {
                Some(s) => s@,
                None => DEFAULT_PSQL_DB@,
            },
            r.user@ == match user {
                Some(s) => s@,
                None => DEFAULT_PSQL_USER@,
            },
            r.host@ == match host {
                Some(s) => s@,
                None => DEFAULT_PSQL_HOST@,
            },
            r.port == match port {
                Some(p) => p,
                None => DEFAULT_PSQL_PORT,
            },
            r.password@ == match password {
                Some(s) => s@,
                None => Seq::<char>::empty(),
            },
    {
        let port = match port {
            Some(p) => p,
            None => DEFAULT_PSQL_PORT,
        };
        SimpleConfig {
            host: or_default(host, DEFAULT_PSQL_HOST),
            port,
            user: or_default(user, DEFAULT_PSQL_USER),
            password: match password {
                Some(s) => s,
                None => String::new(),
            },
            database: or_default(database, DEFAULT_PSQL_DB),
        }
    }
}

/// The message of the error raised when `query` returns no row.
pub fn no_row_message(query: &str) -> (r: String)
    ensures
        r@ == "No row found for query \""@ + query@ + "\""@,
{
    let mut m = String::from_str("No row found for query \"");
    m.append(query);
    m.append("\"");
    m
}

} // verus!
