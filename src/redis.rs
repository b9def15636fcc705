//! Cache keys, the autocomplete warm-up sweep, and the cache-aside lookup.
use vstd::prelude::*;
use crate::textutil::{lower_of, lowercase, push_char, chars_of, contains_seq, contains_text};

verus! {

/// The views of a sequence of strings.
pub open spec fn views(v: Seq<String>) -> Seq<Seq<char>> {
    v.map_values(|p: String| p@)
}

/// How many characters deep the autocomplete warm-up goes.
#[derive(Debug, Clone, Copy, PartialEq, Eq, Structural)]
pub enum PreWarmDepth {
    /// one-character phrases only
    Char1,
    /// one- and two-character phrases
    Char2,
    /// one-, two- and three-character phrases
    Char3,
}

/// The characters that start a warm-up phrase.
pub open spec fn first_alphabet() -> Seq<char> {
    "abcdefghijklmnopqrstuvwxyz0123456789"@
}

/// The characters that extend a warm-up phrase.
pub open spec fn extension_alphabet() -> Seq<char> {
    "abcdefghijklmnopqrstuvwxyz_.!?-'0123456789 "@
}

/// The three-character phrases that start with `c1` and `c2`.
pub open spec fn third_level(c1: char, c2: char) -> Seq<Seq<char>> {
    extension_alphabet().map_values(|c3: char| seq![c1, c2, c3])
}

/// `c1 c2`, followed at depth three by its three-character extensions.
pub open spec fn second_block(c1: char, c2: char, depth: PreWarmDepth) -> Seq<Seq<char>> {
    seq![seq![c1, c2]] + if depth == PreWarmDepth::Char3 {
        third_level(c1, c2)
    } else {
        Seq::empty()
    }
}

pub open spec fn second_blocks(c1: char, depth: PreWarmDepth) -> spec_fn(char) -> Seq<Seq<char>> {
    |c2: char| second_block(c1, c2, depth)
}

/// `c1`, followed beyond depth one by the blocks of its two-character extensions.
pub open spec fn first_block(c1: char, depth: PreWarmDepth) -> Seq<Seq<char>> {
    seq![seq![c1]] + if depth == PreWarmDepth::Char1 {
        Seq::empty()
    } else {
        extension_alphabet().flat_map(second_blocks(c1, depth))
    }
}

pub open spec fn first_blocks(depth: PreWarmDepth) -> spec_fn(char) -> Seq<Seq<char>> {
    |c1: char| first_block(c1, depth)
}

/// Every phrase that the warm-up recaches, in order: each one-character prefix, then
/// (beyond depth one) each of its two-character extensions, each of those followed (at
/// depth three) by its three-character extensions.
pub open spec fn warm_sequence(depth: PreWarmDepth) -> Seq<Seq<char>> {
    first_alphabet().flat_map(first_blocks(depth))
}

/// The number of phrases recached at each depth.
pub open spec fn warm_count(depth: PreWarmDepth) -> int {
    match depth {
        PreWarmDepth::Char1 => 36int,
        PreWarmDepth::Char2 => 36int + 36 * 43,
        PreWarmDepth::Char3 => 36int + 36 * 43 + 36 * 43 * 43,
    }
}

proof fn lemma_flat_map_len<A, B>(s: Seq<A>, f: spec_fn(A) -> Seq<B>, l: int)
    requires
        forall|x: A| (#[trigger] f(x)).len() == l,
    ensures
        s.flat_map(f).len() == s.len() * l,
    decreases s.len(),
{
    if s.len() == 0 {
        assert(s.map_values(f) =~= Seq::<Seq<B>>::empty());
    } else {
        let p = s.drop_last();
        lemma_flat_map_len(p, f, l);
        p.lemma_flat_map_push(f, s.last());
        assert(p.push(s.last()) =~= s);
        assert(s.len() * l == p.len() * l + l) by (nonlinear_arith)
            requires
                s.len() == p.len() + 1,
        ;
    }
}

/// A warm-up of depth one recaches 36 phrases, of depth two 36 + 36 × 43, and of depth
/// three 36 + 36 × 43 + 36 × 43 × 43.
pub proof fn lemma_warm_count(depth: PreWarmDepth)
    ensures
        warm_sequence(depth).len() == warm_count(depth),
{
    reveal_strlit("abcdefghijklmnopqrstuvwxyz0123456789");
    reveal_strlit("abcdefghijklmnopqrstuvwxyz_.!?-'0123456789 ");
    let ext = extension_alphabet();
    let l3: int = if depth == PreWarmDepth::Char3 { 43 } else { 0 };
    assert forall|c1: char, c2: char| (#[trigger] second_blocks(c1, depth)(c2)).len() == 1 + l3 by {
        assert(third_level(c1, c2).len() == 43);
    }
    let l2: int = if depth == PreWarmDepth::Char1 { 0 } else { 43 * (1 + l3) };
    assert forall|c1: char| (#[trigger] first_blocks(depth)(c1)).len() == 1 + l2 by {
        if depth != PreWarmDepth::Char1 {
            lemma_flat_map_len(ext, second_blocks(c1, depth), 1 + l3);
        }
    }
    lemma_flat_map_len(first_alphabet(), first_blocks(depth), 1 + l2);
}

fn phrase_of(c1: char, c2: Option<char>, c3: Option<char>) -> (r: String)
    ensures
        r@ == match (c2, c3) {
            (Some(b), Some(c)) => seq![c1, b, c],
            (Some(b), None) => seq![c1, b],
            _ => seq![c1],
        },
{
    let mut r = String::new();
    push_char(&mut r, c1);
    if let Some(b) = c2 {
        push_char(&mut r, b);
        if let Some(c) = c3 {
            push_char(&mut r, c);
        }
    }
    proof {
        match (c2, c3) {
            (Some(b), Some(c)) => assert(r@ =~= seq![c1, b, c]),
            (Some(b), None) => assert(r@ =~= seq![c1, b]),
            _ => assert(r@ =~= seq![c1]),
        }
    }
    r
}

/// The phrases that a warm-up of the given depth recaches, in order.
pub fn warm_phrases(depth: PreWarmDepth) -> (r: Vec<String>)
    ensures
        views(r@) == warm_sequence(depth),
        r@.len() == warm_count(depth),
{
    let a1 = chars_of("abcdefghijklmnopqrstuvwxyz0123456789");
    let a2 = chars_of("abcdefghijklmnopqrstuvwxyz_.!?-'0123456789 ");
    let ghost fb = first_blocks(depth);
    let mut r: Vec<String> = Vec::new();
    let mut i: usize = 0;
    while i < a1.len()
        invariant
            a1@ == first_alphabet(),
            a2@ == extension_alphabet(),
            fb == first_blocks(depth),
            i <= a1@.len(),
            views(r@) == a1@.take(i as int).flat_map(fb),
        decreases a1.len() - i,
    {
        let c1 = a1[i];
        let ghost base = views(r@);
        r.push(phrase_of(c1, None, None));
        assert(views(r@) =~= base + seq![seq![c1]]);
        if depth != PreWarmDepth::Char1 {
            let ghost sb = second_blocks(c1, depth);
            let mut j: usize = 0;
            while j < a2.len()
                invariant
                    a2@ == extension_alphabet(),
                    sb == second_blocks(c1, depth),
                    depth != PreWarmDepth::Char1,
                    j <= a2@.len(),
                    views(r@) == base + seq![seq![c1]] + a2@.take(j as int).flat_map(sb),
                decreases a2.len() - j,
            {
                let c2 = a2[j];
                let ghost base2 = views(r@);
                r.push(phrase_of(c1, Some(c2), None));
                assert(views(r@) =~= base2 + seq![seq![c1, c2]]);
                if depth == PreWarmDepth::Char3 {
                    let mut k: usize = 0;
                    while k < a2.len()
                        invariant
                            a2@ == extension_alphabet(),
                            k <= a2@.len(),
                            views(r@) == base2 + seq![seq![c1, c2]] + a2@.take(k as int).map_values(
                                |c3: char| seq![c1, c2, c3],
                            ),
                        decreases a2.len() - k,
                    {
                        let c3 = a2[k];
                        let ghost before = views(r@);
                        r.push(phrase_of(c1, Some(c2), Some(c3)));
                        assert(a2@.take(k as int + 1).map_values(|c3: char| seq![c1, c2, c3])
                            =~= a2@.take(k as int).map_values(|c3: char| seq![c1, c2, c3]).push(
                            seq![c1, c2, c3],
                        ));
                        assert(views(r@) =~= before.push(seq![c1, c2, c3]));
                        k = k + 1;
                    }
                    assert(a2@.take(a2@.len() as int) =~= a2@);
                    assert(views(r@) =~= base2 + second_block(c1, c2, depth));
                } else {
                    assert(views(r@) =~= base2 + second_block(c1, c2, depth));
                }
                proof { a2@.lemma_flat_map_take_append(sb, j as int); }
                assert(views(r@) =~= base + seq![seq![c1]] + a2@.take(j as int + 1).flat_map(sb));
                j = j + 1;
            }
            assert(a2@.take(a2@.len() as int) =~= a2@);
            assert(views(r@) =~= base + first_block(c1, depth));
        } else {
            assert(views(r@) =~= base + first_block(c1, depth));
        }
        proof { a1@.lemma_flat_map_take_append(fb, i as int); }
        i = i + 1;
    }
    assert(a1@.take(a1@.len() as int) =~= a1@);
    proof {
        lemma_warm_count(depth);
    }
    r
}

/// The cache key of autocomplete results for a type tag and a phrase. The phrase is
/// lowercased: the search ignores case, the cache keys do not.
pub fn autocomp_key(dtype: &str, phrase: &str) -> (r: String)
    ensures
        r@ == "autocomp_"@ + dtype@ + "_"@ + lower_of(phrase@),
{
    let mut key = String::from_str("autocomp_");
    key.append(dtype);
    key.append("_");
    let lphrase = lowercase(phrase);
    key.append(lphrase.as_str());
    key
}

/// `s` without its double quotes.
pub open spec fn unquoted(s: Seq<char>) -> Seq<char>
    decreases s.len(),
{
    if s.len() == 0 {
        Seq::empty()
    } else if s.last() == '"' {
        unquoted(s.drop_last())
    } else {
        unquoted(s.drop_last()).push(s.last())
    }
}

pub open spec fn key_parts() -> spec_fn(Seq<char>) -> Seq<char> {
    |p: Seq<char>| seq!['_'] + unquoted(p)
}

/// The cache key of a cache-aside entry: the type's prefix, then `_` and each rendered
/// query parameter, with double quotes removed.
pub open spec fn cacheable_key(prefix: Seq<char>, params: Seq<Seq<char>>) -> Seq<char> {
    prefix + params.flat_map(key_parts())
}

/// Builds the key of a cache-aside entry from the type's prefix and its rendered query
/// parameters.
pub fn redis_key(prefix: &str, params: &Vec<String>) -> (r: String)
    ensures
        r@ == cacheable_key(prefix@, views(params@)),
{
    let mut key = String::from_str(prefix);
    let ghost ps = views(params@);
    let mut i: usize = 0;
    while i < params.len()
        invariant
            ps == views(params@),
            i <= params@.len(),
            key@ == prefix@ + ps.take(i as int).flat_map(key_parts()),
        decreases params.len() - i,
    {
        let ghost before = key@;
        push_char(&mut key, '_');
        let p = chars_of(params[i].as_str());
        let mut j: usize = 0;
        while j < p.len()
            invariant
                j <= p@.len(),
                key@ == before + seq!['_'] + unquoted(p@.take(j as int)),
            decreases p.len() - j,
        {
            assert(p@.take(j as int + 1).drop_last() =~= p@.take(j as int));
            if p[j] != '"' {
                push_char(&mut key, p[j]);
            }
            j = j + 1;
            assert(key@ =~= before + seq!['_'] + unquoted(p@.take(j as int)));
        }
        assert(p@.take(p@.len() as int) =~= p@);
        assert(ps[i as int] == params@[i as int]@);
        proof {
            ps.lemma_flat_map_take_append(key_parts(), i as int);
        }
        assert(key@ =~= prefix@ + ps.take(i as int + 1).flat_map(key_parts()));
        i = i + 1;
    }
    assert(ps.take(ps.len() as int) =~= ps);
    key
}

/// One operation on the cache store.
#[derive(Debug, PartialEq, Eq)]
pub enum CacheCommand {
    Get { key: String },
    SetEx { key: String, value: String, seconds: usize },
    IsMember { key: String, member: String },
    Cardinality { key: String },
    Delete { key: String },
    AddMember { key: String, member: String },
}

/// What the cache store answered to a command.
#[derive(Debug, PartialEq, Eq)]
pub enum CacheReply {
    /// the value under the key, `None` where there is none
    Value(Option<String>),
    /// a write was made
    Done,
    IsMember(bool),
    Cardinality(usize),
}

/// The cache store's contents: values with the expiry they were written with, and named
/// sets of strings. A key with no set has the empty set.
pub struct CacheModel {
    pub values: Map<Seq<char>, String>,
    pub expiry: Map<Seq<char>, usize>,
    pub sets: Map<Seq<char>, Set<Seq<char>>>,
}

pub open spec fn members(m: CacheModel, key: Seq<char>) -> Set<Seq<char>> {
    if m.sets.contains_key(key) {
        m.sets[key]
    } else {
        Set::empty()
    }
}

/// What the cache store does with a command, and what it answers.
pub open spec fn perform(m: CacheModel, c: CacheCommand) -> (CacheModel, CacheReply) {
    match c {
        CacheCommand::Get { key } => (
            m,
            CacheReply::Value(
                if m.values.contains_key(key@) {
                    Some(m.values[key@])
                } else {
                    None
                },
            ),
        ),
        CacheCommand::SetEx { key, value, seconds } => (
            CacheModel {
                values: m.values.insert(key@, value),
                expiry: m.expiry.insert(key@, seconds),
                sets: m.sets,
            },
            CacheReply::Done,
        ),
        CacheCommand::IsMember { key, member } => (
            m,
            CacheReply::IsMember(members(m, key@).contains(member@)),
        ),
        CacheCommand::Cardinality { key } => (
            m,
            CacheReply::Cardinality(members(m, key@).len() as usize),
        ),
        CacheCommand::Delete { key } => (
            CacheModel {
                values: m.values.remove(key@),
                expiry: m.expiry.remove(key@),
                sets: m.sets.remove(key@),
            },
            CacheReply::Done,
        ),
        CacheCommand::AddMember { key, member } => (
            CacheModel {
                values: m.values,
                expiry: m.expiry,
                sets: m.sets.insert(key@, members(m, key@).insert(member@)),
            },
            CacheReply::Done,
        ),
    }
}

/// Where a cache-aside lookup stands.
#[derive(Debug, PartialEq, Eq)]
pub enum FetchPhase {
    /// waiting for the cached value
    Lookup,
    /// waiting for the computed value
    Compute,
    /// waiting for the computed value to be cached
    Store { value: String },
    Finished,
}

/// A cache-aside lookup of one key: a hit is returned as it is; on a miss the value is
/// computed and, where there is one, cached with the given expiry before it is returned.
/// An absent value is never cached.
#[derive(Debug, PartialEq, Eq)]
pub struct CacheAside {
    pub key: String,
    pub seconds: usize,
    pub phase: FetchPhase,
}

#[derive(Debug, PartialEq, Eq)]
pub enum FetchEvent {
    Reply(CacheReply),
    Computed(Option<String>),
}

#[derive(Debug, PartialEq, Eq)]
pub enum FetchAction {
    /// send this command to the cache store
    Command(CacheCommand),
    /// compute the value, typically with one query to the durable store
    Compute,
    /// the lookup is over, with this result
    Return(Option<String>),
    /// the event does not fit the phase; nothing changed
    Unexpected,
}

pub open spec fn fetch_next(s: CacheAside, e: FetchEvent) -> (CacheAside, FetchAction) {
    match (s.phase, e) {
        (FetchPhase::Lookup, FetchEvent::Reply(CacheReply::Value(Some(v)))) => (
            CacheAside { phase: FetchPhase::Finished, ..s },
            FetchAction::Return(Some(v)),
        ),
        (FetchPhase::Lookup, FetchEvent::Reply(CacheReply::Value(None))) => (
            CacheAside { phase: FetchPhase::Compute, ..s },
            FetchAction::Compute,
        ),
        (FetchPhase::Compute, FetchEvent::Computed(None)) => (
            CacheAside { phase: FetchPhase::Finished, ..s },
            FetchAction::Return(None),
        ),
        (FetchPhase::Compute, FetchEvent::Computed(Some(v))) => (
            CacheAside { phase: FetchPhase::Store { value: v }, ..s },
            FetchAction::Command(CacheCommand::SetEx { key: s.key, value: v, seconds: s.seconds }),
        ),
        (FetchPhase::Store { value }, FetchEvent::Reply(CacheReply::Done)) => (
            CacheAside { phase: FetchPhase::Finished, ..s },
            FetchAction::Return(Some(value)),
        ),
        _ => (s, FetchAction::Unexpected),
    }
}

impl CacheAside {
    /// Starts a lookup of `key`; the first action reads the key.
    pub fn new(key: String, seconds: usize) -> (r: (CacheAside, FetchAction))
        ensures
            r.0 == (CacheAside { key, seconds, phase: FetchPhase::Lookup }),
            r.1 == FetchAction::Command(CacheCommand::Get { key }),
    {
        let k = key.clone();
        (CacheAside { key, seconds, phase: FetchPhase::Lookup }, FetchAction::Command(CacheCommand::Get { key: k }))
    }

    /// Takes the outcome of the last action and says what to do next.
    pub fn step(&mut self, e: FetchEvent) -> (a: FetchAction)
        ensures
            (*final(self), a) == fetch_next(*old(self), e),
    {
        let mut phase = FetchPhase::Finished;
        std::mem::swap(&mut self.phase, &mut phase);
        match (phase, e) {
            (FetchPhase::Lookup, FetchEvent::Reply(CacheReply::Value(Some(v)))) => {
                FetchAction::Return(Some(v))
            },
            (FetchPhase::Lookup, FetchEvent::Reply(CacheReply::Value(None))) => {
                self.phase = FetchPhase::Compute;
                FetchAction::Compute
            },
            (FetchPhase::Compute, FetchEvent::Computed(None)) => FetchAction::Return(None),
            (FetchPhase::Compute, FetchEvent::Computed(Some(v))) => {
                let value = v.clone();
                self.phase = FetchPhase::Store { value: v };
                FetchAction::Command(
                    CacheCommand::SetEx { key: self.key.clone(), value, seconds: self.seconds },
                )
            },
            (FetchPhase::Store { value }, FetchEvent::Reply(CacheReply::Done)) => {
                FetchAction::Return(Some(value))
            },
            (phase, _) => {
                self.phase = phase;
                FetchAction::Unexpected
            },
        }
    }
}

/// A caller's loop over a lookup: commands go to the cache store `m`, and computing
/// yields `computed`. Gives the store afterwards, the last action, and whether the value
/// was computed.
pub open spec fn drive_fetch(
    s: CacheAside,
    a: FetchAction,
    m: CacheModel,
    computed: Option<String>,
    fuel: nat,
) -> (CacheModel, FetchAction, bool)
    decreases fuel,
{
    if fuel == 0 {
        (m, a, false)
    } else {
        match a {
            FetchAction::Command(c) => {
                let (m2, reply) = perform(m, c);
                let (s2, a2) = fetch_next(s, FetchEvent::Reply(reply));
                drive_fetch(s2, a2, m2, computed, (fuel - 1) as nat)
            },
            FetchAction::Compute => {
                let (s2, a2) = fetch_next(s, FetchEvent::Computed(computed));
                let r = drive_fetch(s2, a2, m, computed, (fuel - 1) as nat);
                (r.0, r.1, true)
            },
            _ => (m, a, false),
        }
    }
}

/// The first lookup of a key that is not cached computes the value and caches it with
/// the lookup's expiry; a second lookup of the key right after returns the cached value
/// without computing, whatever computing would now give, and changes nothing.
pub proof fn lemma_cache_aside_fills_then_hits(
    m: CacheModel,
    key: String,
    seconds: usize,
    v: String,
    later: Option<String>,
)
    requires
        !m.values.contains_key(key@),
    ensures
        ({
            let s0 = CacheAside { key, seconds, phase: FetchPhase::Lookup };
            let a0 = FetchAction::Command(CacheCommand::Get { key });
            let first = drive_fetch(s0, a0, m, Some(v), 4);
            let second = drive_fetch(s0, a0, first.0, later, 4);
            &&& first.2
            &&& first.1 == FetchAction::Return(Some(v))
            &&& first.0.values == m.values.insert(key@, v)
            &&& first.0.expiry == m.expiry.insert(key@, seconds)
            &&& first.0.sets == m.sets
            &&& !second.2
            &&& second.1 == FetchAction::Return(Some(v))
            &&& second.0 == first.0
        }),
{
    reveal_with_fuel(drive_fetch, 5);
}

/// A type whose autocomplete results are cached: its tag in cache keys, how long its
/// results live, and how deep the warm-up of its cache goes.
pub trait CachedAutoComp {
    fn dtype() -> &'static str;

    fn seconds_expiry() -> usize;

    fn prewarm_depth() -> PreWarmDepth;
}

/// The text by which the cache store reports that a key holds nothing.
pub open spec fn nil_response_text() -> Seq<char> {
    "response was nil"@
}

/// Whether a failed read only found nothing under the key, judged by the error's text.
pub fn is_nil_response(message: &str) -> (r: bool)
    ensures
        r == contains_seq(message@, nil_response_text()),
{
    contains_text(message, "response was nil")
}

/// The URI scheme of the cache store: `rediss` with TLS, else `redis`.
pub fn uri_scheme(is_tls: bool) -> (r: &'static str)
    ensures
        r@ == if is_tls {
            "rediss"@
        } else {
            "redis"@
        },
{
    if is_tls {
        "rediss"
    } else {
        "redis"
    }
}

/// The cache store's address: the host where one is given, else `127.0.0.1` with the
/// given port, else `127.0.0.1:6379`.
pub fn redis_host(host: Option<String>, port: Option<String>) -> (r: String)
    ensures
        r@ == match (host, port) {
            (Some(h), _) => h@,
            (None, Some(p)) => "127.0.0.1:"@ + p@,
            (None, None) => "127.0.0.1:6379"@,
        },
{
    match (host, port) {
        (Some(h), _) => h,
        (None, Some(p)) => {
            let mut r = String::from_str("127.0.0.1:");
            r.append(p.as_str());
            r
        },
        (None, None) => String::from_str("127.0.0.1:6379"),
    }
}

/// The connection URL `<scheme>://:<password>@<host>`.
pub fn redis_url(uri_scheme: &str, redis_host: &str, redis_pw: &str) -> (r: String)
    ensures
        r@ == uri_scheme@ + "://:"@ + redis_pw@ + "@"@ + redis_host@,
{
    let mut r = String::from_str(uri_scheme);
    r.append("://:");
    r.append(redis_pw);
    r.append("@");
    r.append(redis_host);
    r
}

#[verifier::external_type_specification]
#[verifier::external_body]
pub struct ExRedisClient(mobc_redis::redis::Client);

/// Relies on `redis::Client::open`: parses the connection URL into a client without
/// connecting.
#[verifier::external_body]
fn open_client(url: String) -> (r: Result<mobc_redis::redis::Client, mobc_redis::redis::RedisError>) {
    mobc_redis::redis::Client::open(url)
}

/// A client for the cache store at `redis_host`; nothing is connected yet.
pub fn new_client(uri_scheme: &str, redis_host: &str, redis_pw: &str) -> (r: Result<
    mobc_redis::redis::Client,
    mobc_redis::redis::RedisError,
>) {
    open_client(redis_url(uri_scheme, redis_host, redis_pw))
}

} // verus!
