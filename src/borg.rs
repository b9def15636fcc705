//! Construction of objects through a cached intermediate value and a bounded set of the
//! identities already seen.
//!
//! A construction runs the invocation hook, reads the intermediate value from the cache
//! or computes and caches it, generates and instantiates the object, and then checks the
//! object's identity against the type's set: an identity not in it runs the first-sight
//! hook and joins the set, which is cleared first once it holds more than the type's
//! maximum. The completion hook ends the construction.
use vstd::prelude::*;
use crate::redis::{CacheCommand, CacheReply, CacheModel, members, perform};
use crate::textutil::{contains_seq, contains_text};

verus! {

/// How long a cached intermediate value lives, in seconds, unless a type says otherwise.
pub const DEFAULT_EXPIRY_R: usize = 7200;

/// The size beyond which a type's identity set is cleared, unless a type says otherwise.
pub const DEFAULT_PK_MAX_CT: usize = 1_000_000;

/// The cache key of a type's intermediate value: `r_<prefix>_<suffix>`.
pub open spec fn intermediate_key(prefix: Seq<char>, suffix: Seq<char>) -> Seq<char> {
    "r_"@ + prefix + "_"@ + suffix
}

/// The key of a type's identity set: `pks_<prefix>`.
pub open spec fn identity_set_key(prefix: Seq<char>) -> Seq<char> {
    "pks_"@ + prefix
}

/// Where a construction stands.
#[derive(Debug, PartialEq, Eq)]
pub enum BorgPhase {
    /// waiting for the invocation hook
    Invocation,
    /// waiting for the cached intermediate value
    LookupIntermediate,
    /// waiting for the computed intermediate value
    ComputeIntermediate,
    /// waiting for the intermediate value to be cached
    StoreIntermediate,
    /// waiting for the object and its identity
    Instantiate,
    /// waiting to hear whether the identity is in the set
    CheckMember { member: String },
    /// waiting for the first-sight hook
    FirstSight { member: String },
    /// waiting for the size of the set
    CountMembers { member: String },
    /// waiting for the set to be cleared
    ClearMembers { member: String },
    /// waiting for the identity to join the set
    AddMember,
    /// waiting for the completion hook
    Completion,
    Finished,
}

/// The decisions of one construction.
#[derive(Debug, PartialEq, Eq)]
pub struct BorgMachine {
    pub key_r: String,
    pub set_key: String,
    pub seconds: usize,
    pub max_count: usize,
    pub phase: BorgPhase,
}

#[derive(Debug, PartialEq, Eq)]
pub enum BorgEvent {
    /// the hook that was asked for succeeded
    HookDone,
    Reply(CacheReply),
    /// the intermediate value, encoded for the cache
    Computed(String),
    /// the object was instantiated; this is its identity
    Instantiated(String),
}

#[derive(Debug, PartialEq, Eq)]
pub enum BorgAction {
    /// run the invocation hook
    OnInvocation,
    /// send this command to the cache store
    Command(CacheCommand),
    /// compute the intermediate value
    ComputeIntermediate,
    /// generate and instantiate the object, from the cached intermediate value where
    /// there is one, else from the one just computed
    Generate { cached: Option<String> },
    /// run the first-sight hook
    OnFirstSight,
    /// run the completion hook
    OnInstantiation,
    /// the construction is over: return the object
    Return,
    /// the event does not fit the phase; nothing changed
    Unexpected,
}

pub open spec fn borg_next(s: BorgMachine, e: BorgEvent) -> (BorgMachine, BorgAction) {
    match (s.phase, e) {
        (BorgPhase::Invocation, BorgEvent::HookDone) => (
            BorgMachine { phase: BorgPhase::LookupIntermediate, ..s },
            BorgAction::Command(CacheCommand::Get { key: s.key_r }),
        ),
        (BorgPhase::LookupIntermediate, BorgEvent::Reply(CacheReply::Value(Some(p)))) => (
            BorgMachine { phase: BorgPhase::Instantiate, ..s },
            BorgAction::Generate { cached: Some(p) },
        ),
        (BorgPhase::LookupIntermediate, BorgEvent::Reply(CacheReply::Value(None))) => (
            BorgMachine { phase: BorgPhase::ComputeIntermediate, ..s },
            BorgAction::ComputeIntermediate,
        ),
        (BorgPhase::ComputeIntermediate, BorgEvent::Computed(p)) => (
            BorgMachine { phase: BorgPhase::StoreIntermediate, ..s },
            BorgAction::Command(CacheCommand::SetEx { key: s.key_r, value: p, seconds: s.seconds }),
        ),
        (BorgPhase::StoreIntermediate, BorgEvent::Reply(CacheReply::Done)) => (
            BorgMachine { phase: BorgPhase::Instantiate, ..s },
            BorgAction::Generate { cached: None },
        ),
        (BorgPhase::Instantiate, BorgEvent::Instantiated(member)) => (
            BorgMachine { phase: BorgPhase::CheckMember { member }, ..s },
            BorgAction::Command(CacheCommand::IsMember { key: s.set_key, member }),
        ),
        (BorgPhase::CheckMember { member }, BorgEvent::Reply(CacheReply::IsMember(true))) => (
            BorgMachine { phase: BorgPhase::Completion, ..s },
            BorgAction::OnInstantiation,
        ),
        (BorgPhase::CheckMember { member }, BorgEvent::Reply(CacheReply::IsMember(false))) => (
            BorgMachine { phase: BorgPhase::FirstSight { member }, ..s },
            BorgAction::OnFirstSight,
        ),
        (BorgPhase::FirstSight { member }, BorgEvent::HookDone) => (
            BorgMachine { phase: BorgPhase::CountMembers { member }, ..s },
            BorgAction::Command(CacheCommand::Cardinality { key: s.set_key }),
        ),
        (BorgPhase::CountMembers { member }, BorgEvent::Reply(CacheReply::Cardinality(n))) => {
            if s.max_count < n {
                (
                    BorgMachine { phase: BorgPhase::ClearMembers { member }, ..s },
                    BorgAction::Command(CacheCommand::Delete { key: s.set_key }),
                )
            } else {
                (
                    BorgMachine { phase: BorgPhase::AddMember, ..s },
                    BorgAction::Command(CacheCommand::AddMember { key: s.set_key, member }),
                )
            }
        },
        (BorgPhase::ClearMembers { member }, BorgEvent::Reply(CacheReply::Done)) => (
            BorgMachine { phase: BorgPhase::AddMember, ..s },
            BorgAction::Command(CacheCommand::AddMember { key: s.set_key, member }),
        ),
        (BorgPhase::AddMember, BorgEvent::Reply(CacheReply::Done)) => (
            BorgMachine { phase: BorgPhase::Completion, ..s },
            BorgAction::OnInstantiation,
        ),
        (BorgPhase::Completion, BorgEvent::HookDone) => (
            BorgMachine { phase: BorgPhase::Finished, ..s },
            BorgAction::Return,
        ),
        _ => (s, BorgAction::Unexpected),
    }
}

fn concat_key(head: &str, prefix: &str, tail: Option<&str>) -> (r: String)
    ensures
        r@ == match tail {
            Some(t) => head@ + prefix@ + "_"@ + t@,
            None => head@ + prefix@,
        },
{
    let mut k = String::from_str(head);
    k.append(prefix);
    if let Some(t) = tail {
        k.append("_");
        k.append(t);
    }
    k
}

impl BorgMachine {
    /// Starts a construction of a type with the given key prefix, whose inputs give the
    /// key suffix `suffix`; the first action is the invocation hook.
    pub fn new(prefix: &str, suffix: &str, seconds: usize, max_count: usize) -> (r: (
        BorgMachine,
        BorgAction,
    ))
        ensures
            r.0.key_r@ == intermediate_key(prefix@, suffix@),
            r.0.set_key@ == identity_set_key(prefix@),
            r.0.seconds == seconds,
            r.0.max_count == max_count,
            r.0.phase == BorgPhase::Invocation,
            r.1 == BorgAction::OnInvocation,
    {
        let key_r = concat_key("r_", prefix, Some(suffix));
        let set_key = concat_key("pks_", prefix, None);
        (
            BorgMachine { key_r, set_key, seconds, max_count, phase: BorgPhase::Invocation },
            BorgAction::OnInvocation,
        )
    }

    /// Takes the outcome of the last action and says what to do next.
    pub fn step(&mut self, e: BorgEvent) -> (a: BorgAction)
        ensures
            (*final(self), a) == borg_next(*old(self), e),
    {
        let mut phase = BorgPhase::Finished;
        std::mem::swap(&mut self.phase, &mut phase);
        match (phase, e) {
            (BorgPhase::Invocation, BorgEvent::HookDone) => {
                self.phase = BorgPhase::LookupIntermediate;
                BorgAction::Command(CacheCommand::Get { key: self.key_r.clone() })
            },
            (BorgPhase::LookupIntermediate, BorgEvent::Reply(CacheReply::Value(Some(p)))) => {
                self.phase = BorgPhase::Instantiate;
                BorgAction::Generate { cached: Some(p) }
            },
            (BorgPhase::LookupIntermediate, BorgEvent::Reply(CacheReply::Value(None))) => {
                self.phase = BorgPhase::ComputeIntermediate;
                BorgAction::ComputeIntermediate
            },
            (BorgPhase::ComputeIntermediate, BorgEvent::Computed(p)) => {
                self.phase = BorgPhase::StoreIntermediate;
                BorgAction::Command(
                    CacheCommand::SetEx { key: self.key_r.clone(), value: p, seconds: self.seconds },
                )
            },
            (BorgPhase::StoreIntermediate, BorgEvent::Reply(CacheReply::Done)) => {
                self.phase = BorgPhase::Instantiate;
                BorgAction::Generate { cached: None }
            },
            (BorgPhase::Instantiate, BorgEvent::Instantiated(member)) => {
                let m = member.clone();
                self.phase = BorgPhase::CheckMember { member };
                BorgAction::Command(CacheCommand::IsMember { key: self.set_key.clone(), member: m })
            },
            (BorgPhase::CheckMember { member }, BorgEvent::Reply(CacheReply::IsMember(true))) => {
                self.phase = BorgPhase::Completion;
                BorgAction::OnInstantiation
            },
            (BorgPhase::CheckMember { member }, BorgEvent::Reply(CacheReply::IsMember(false))) => {
                self.phase = BorgPhase::FirstSight { member };
                BorgAction::OnFirstSight
            },
            (BorgPhase::FirstSight { member }, BorgEvent::HookDone) => {
                self.phase = BorgPhase::CountMembers { member };
                BorgAction::Command(CacheCommand::Cardinality { key: self.set_key.clone() })
            },
            (BorgPhase::CountMembers { member }, BorgEvent::Reply(CacheReply::Cardinality(n))) => {
                if self.max_count < n {
                    self.phase = BorgPhase::ClearMembers { member };
                    BorgAction::Command(CacheCommand::Delete { key: self.set_key.clone() })
                } else {
                    self.phase = BorgPhase::AddMember;
                    BorgAction::Command(CacheCommand::AddMember { key: self.set_key.clone(), member })
                }
            },
            (BorgPhase::ClearMembers { member }, BorgEvent::Reply(CacheReply::Done)) => {
                self.phase = BorgPhase::AddMember;
                BorgAction::Command(CacheCommand::AddMember { key: self.set_key.clone(), member })
            },
            (BorgPhase::AddMember, BorgEvent::Reply(CacheReply::Done)) => {
                self.phase = BorgPhase::Completion;
                BorgAction::OnInstantiation
            },
            (BorgPhase::Completion, BorgEvent::HookDone) => BorgAction::Return,
            (phase, _) => {
                self.phase = phase;
                BorgAction::Unexpected
            },
        }
    }
}

/// A caller's loop over a construction: commands go to the cache store `m`, every hook
/// succeeds, the intermediate value computes to `payload`, and the object's identity is
/// `member`. Gives the store afterwards, the last action, and how many times the
/// first-sight hook ran.
pub open spec fn drive_borg(
    s: BorgMachine,
    a: BorgAction,
    m: CacheModel,
    payload: String,
    member: String,
    fuel: nat,
) -> (CacheModel, BorgAction, nat)
    decreases fuel,
{
    if fuel == 0 {
        (m, a, 0)
    } else {
        let f = (fuel - 1) as nat;
        match a {
            BorgAction::Command(c) => {
                let (m2, reply) = perform(m, c);
                let (s2, a2) = borg_next(s, BorgEvent::Reply(reply));
                drive_borg(s2, a2, m2, payload, member, f)
            },
            BorgAction::ComputeIntermediate => {
                let (s2, a2) = borg_next(s, BorgEvent::Computed(payload));
                drive_borg(s2, a2, m, payload, member, f)
            },
            BorgAction::Generate { cached } => {
                let (s2, a2) = borg_next(s, BorgEvent::Instantiated(member));
                drive_borg(s2, a2, m, payload, member, f)
            },
            BorgAction::OnFirstSight => {
                let (s2, a2) = borg_next(s, BorgEvent::HookDone);
                let r = drive_borg(s2, a2, m, payload, member, f);
                (r.0, r.1, r.2 + 1)
            },
            BorgAction::OnInvocation | BorgAction::OnInstantiation => {
                let (s2, a2) = borg_next(s, BorgEvent::HookDone);
                drive_borg(s2, a2, m, payload, member, f)
            },
            _ => (m, a, 0),
        }
    }
}

/// A whole construction from its first action, as `drive_borg` runs it.
pub open spec fn construct(
    key_r: String,
    set_key: String,
    seconds: usize,
    max_count: usize,
    m: CacheModel,
    payload: String,
    member: String,
) -> (CacheModel, BorgAction, nat) {
    let s0 = BorgMachine { key_r, set_key, seconds, max_count, phase: BorgPhase::Invocation };
    drive_borg(s0, BorgAction::OnInvocation, m, payload, member, 13)
}

/// The identity set after a construction of an object with identity `member`.
pub open spec fn set_after(old_set: Set<Seq<char>>, member: Seq<char>, max_count: usize) -> Set<
    Seq<char>,
> {
    if old_set.contains(member) {
        old_set
    } else if old_set.len() > max_count {
        set![member]
    } else {
        old_set.insert(member)
    }
}

/// A construction completes; it runs the first-sight hook once if the identity was not in
/// the set and never otherwise; and it leaves the set as `set_after` says.
pub proof fn lemma_construction_effect(
    key_r: String,
    set_key: String,
    seconds: usize,
    max_count: usize,
    m: CacheModel,
    payload: String,
    member: String,
)
    requires
        members(m, set_key@).finite(),
        members(m, set_key@).len() <= usize::MAX,
    ensures
        ({
            let r = construct(key_r, set_key, seconds, max_count, m, payload, member);
            &&& r.1 == BorgAction::Return
            &&& r.2 == if members(m, set_key@).contains(member@) { 0nat } else { 1nat }
            &&& members(r.0, set_key@) == set_after(members(m, set_key@), member@, max_count)
        }),
{
    reveal_with_fuel(drive_borg, 14);
    let old_set = members(m, set_key@);
    if !old_set.contains(member@) && old_set.len() > max_count {
        assert(old_set.len() as usize == old_set.len());
        assert(Set::<Seq<char>>::empty().insert(member@) =~= set![member@]);
    }
}

/// Two constructions in a row of objects with the same new identity run the first-sight
/// hook once between them.
pub proof fn lemma_first_sight_once(
    key_r: String,
    set_key: String,
    seconds: usize,
    max_count: usize,
    m: CacheModel,
    payload: String,
    member: String,
    payload2: String,
)
    requires
        members(m, set_key@).finite(),
        members(m, set_key@).len() < usize::MAX,
        !members(m, set_key@).contains(member@),
    ensures
        ({
            let first = construct(key_r, set_key, seconds, max_count, m, payload, member);
            let second = construct(key_r, set_key, seconds, max_count, first.0, payload2, member);
            &&& first.1 == BorgAction::Return
            &&& second.1 == BorgAction::Return
            &&& first.2 + second.2 == 1
        }),
{
    lemma_construction_effect(key_r, set_key, seconds, max_count, m, payload, member);
    let first = construct(key_r, set_key, seconds, max_count, m, payload, member);
    let after = members(first.0, set_key@);
    assert(after.contains(member@));
    assert(after.finite() && after.len() <= usize::MAX) by {
        if !(members(m, set_key@).len() > max_count) {
            assert(after == members(m, set_key@).insert(member@));
        } else {
            assert(after == set![member@]);
            assert(after.len() == 1) by {
                assert(set![member@] == Set::<Seq<char>>::empty().insert(member@));
            }
        }
    }
    lemma_construction_effect(key_r, set_key, seconds, max_count, first.0, payload2, member);
}

/// A construction of an object with a new identity, while the identity set holds more
/// than the maximum, clears the set before adding the identity: the set then holds that
/// identity alone.
pub proof fn lemma_eviction_resets_set(
    key_r: String,
    set_key: String,
    seconds: usize,
    max_count: usize,
    m: CacheModel,
    payload: String,
    member: String,
)
    requires
        members(m, set_key@).finite(),
        members(m, set_key@).len() <= usize::MAX,
        members(m, set_key@).len() > max_count,
        !members(m, set_key@).contains(member@),
    ensures
        ({
            let r = construct(key_r, set_key, seconds, max_count, m, payload, member);
            &&& members(r.0, set_key@) == set![member@]
            &&& members(r.0, set_key@).len() == 1
        }),
{
    lemma_construction_effect(key_r, set_key, seconds, max_count, m, payload, member);
    assert(set![member@] == Set::<Seq<char>>::empty().insert(member@));
}

/// How many times a resolution retries after losing an insert race before it gives up.
pub const MAX_RESOLVE_RETRIES: u32 = 7;

/// The pause before the first retry, in milliseconds; each later pause is twice as long.
pub const RETRY_BASE_MILLIS: u64 = 100;

/// The message of the error raised when an insert succeeds but hands back no row.
pub const INSERT_NO_ROW_MESSAGE: &'static str = "insert succeeded but no row returned";

/// The pause before retry number `n + 1`, in milliseconds.
pub open spec fn retry_delay(n: nat) -> nat
    decreases n,
{
    if n == 0 {
        RETRY_BASE_MILLIS as nat
    } else {
        2 * retry_delay((n - 1) as nat)
    }
}

/// The text by which the durable store reports a uniqueness-constraint violation.
pub open spec fn unique_violation_text() -> Seq<char> {
    "duplicate key value violates unique constraint"@
}

/// Whether an insert failed on a uniqueness constraint, judged by the error's text.
pub fn is_unique_violation(message: &str) -> (r: bool)
    ensures
        r == contains_seq(message@, unique_violation_text()),
{
    contains_text(message, "duplicate key value violates unique constraint")
}

/// Where a resolution of a natural key stands.
#[derive(Debug, PartialEq, Eq)]
pub enum ResolvePhase {
    /// waiting for the select
    Select,
    /// waiting for the insert
    Insert,
    /// waiting out the pause before a retry
    Wait,
    Finished,
}

/// The decisions of one resolution of a natural key to its durable identifier: select
/// it, insert it where it is absent, and retry from the select after a pause where the
/// insert lost a race to another writer, at most `MAX_RESOLVE_RETRIES` times.
#[derive(Debug, PartialEq, Eq)]
pub struct UniqueKeyResolver {
    pub retries: u32,
    pub phase: ResolvePhase,
}

#[derive(Debug, PartialEq, Eq)]
pub enum ResolveEvent<K> {
    /// the select's first row, if any
    Selected(Option<K>),
    /// the insert succeeded; its first row, if any
    Inserted(Option<K>),
    /// the insert failed with an error of this text
    InsertFailed(String),
    /// the pause is over
    Waited,
}

#[derive(Debug, PartialEq, Eq)]
pub enum ResolveAction<K> {
    /// select the natural key
    Select,
    /// insert the natural key
    Insert,
    /// pause for this many milliseconds without blocking
    Wait { millis: u64 },
    /// the identifier
    Return(K),
    /// fail with the missing-row error of `INSERT_NO_ROW_MESSAGE`
    InsertReturnedNoRow,
    /// fail with the insert's error
    Propagate,
    /// the event does not fit the phase; nothing changed
    Unexpected,
}

pub open spec fn resolve_next<K>(s: UniqueKeyResolver, e: ResolveEvent<K>) -> (
    UniqueKeyResolver,
    ResolveAction<K>,
) {
    match (s.phase, e) {
        (ResolvePhase::Select, ResolveEvent::Selected(Some(k))) => (
            UniqueKeyResolver { phase: ResolvePhase::Finished, ..s },
            ResolveAction::Return(k),
        ),
        (ResolvePhase::Select, ResolveEvent::Selected(None)) => (
            UniqueKeyResolver { phase: ResolvePhase::Insert, ..s },
            ResolveAction::Insert,
        ),
        (ResolvePhase::Insert, ResolveEvent::Inserted(Some(k))) => (
            UniqueKeyResolver { phase: ResolvePhase::Finished, ..s },
            ResolveAction::Return(k),
        ),
        (ResolvePhase::Insert, ResolveEvent::Inserted(None)) => (
            UniqueKeyResolver { phase: ResolvePhase::Finished, ..s },
            ResolveAction::InsertReturnedNoRow,
        ),
        (ResolvePhase::Insert, ResolveEvent::InsertFailed(message)) => {
            if contains_seq(message@, unique_violation_text()) && s.retries < MAX_RESOLVE_RETRIES {
                (
                    UniqueKeyResolver { phase: ResolvePhase::Wait, ..s },
                    ResolveAction::Wait { millis: retry_delay(s.retries as nat) as u64 },
                )
            } else {
                (UniqueKeyResolver { phase: ResolvePhase::Finished, ..s }, ResolveAction::Propagate)
            }
        },
        (ResolvePhase::Wait, ResolveEvent::Waited) => {
            if s.retries < MAX_RESOLVE_RETRIES {
                (
                    UniqueKeyResolver { retries: (s.retries + 1) as u32, phase: ResolvePhase::Select },
                    ResolveAction::Select,
                )
            } else {
                (s, ResolveAction::Unexpected)
            }
        },
        _ => (s, ResolveAction::Unexpected),
    }
}

proof fn lemma_retry_delay_bound(n: nat)
    requires
        n <= MAX_RESOLVE_RETRIES,
    ensures
        retry_delay(n) <= 12800,
    decreases n,
{
    if n > 0 {
        lemma_retry_delay_bound((n - 1) as nat);
        reveal_with_fuel(retry_delay, 8);
    }
}

fn delay_before_retry(n: u32) -> (r: u64)
    requires
        n <= MAX_RESOLVE_RETRIES,
    ensures
        r == retry_delay(n as nat),
{
    let mut d: u64 = RETRY_BASE_MILLIS;
    let mut i: u32 = 0;
    while i < n
        invariant
            i <= n <= MAX_RESOLVE_RETRIES,
            d == retry_delay(i as nat),
        decreases n - i,
    {
        proof {
            lemma_retry_delay_bound(i as nat);
        }
        d = d * 2;
        i = i + 1;
    }
    d
}

impl UniqueKeyResolver {
    /// The retry count stays within its bound, and below it while a retry is pending.
    pub open spec fn wf(&self) -> bool {
        &&& self.retries <= MAX_RESOLVE_RETRIES
        &&& self.phase == ResolvePhase::Wait ==> self.retries < MAX_RESOLVE_RETRIES
    }

    /// Starts a resolution; the first action is the select.
    pub fn new<K>() -> (r: (UniqueKeyResolver, ResolveAction<K>))
        ensures
            r.0 == (UniqueKeyResolver { retries: 0, phase: ResolvePhase::Select }),
            r.0.wf(),
            r.1 == ResolveAction::<K>::Select,
    {
        (UniqueKeyResolver { retries: 0, phase: ResolvePhase::Select }, ResolveAction::Select)
    }

    /// Takes the outcome of the last action and says what to do next.
    pub fn step<K>(&mut self, e: ResolveEvent<K>) -> (a: ResolveAction<K>)
        ensures
            (*final(self), a) == resolve_next(*old(self), e),
            old(self).wf() ==> final(self).wf(),
    {
        match (&self.phase, e) {
            (ResolvePhase::Select, ResolveEvent::Selected(Some(k))) => {
                self.phase = ResolvePhase::Finished;
                ResolveAction::Return(k)
            },
            (ResolvePhase::Select, ResolveEvent::Selected(None)) => {
                self.phase = ResolvePhase::Insert;
                ResolveAction::Insert
            },
            (ResolvePhase::Insert, ResolveEvent::Inserted(Some(k))) => {
                self.phase = ResolvePhase::Finished;
                ResolveAction::Return(k)
            },
            (ResolvePhase::Insert, ResolveEvent::Inserted(None)) => {
                self.phase = ResolvePhase::Finished;
                ResolveAction::InsertReturnedNoRow
            },
            (ResolvePhase::Insert, ResolveEvent::InsertFailed(message)) => {
                if is_unique_violation(message.as_str()) && self.retries < MAX_RESOLVE_RETRIES {
                    self.phase = ResolvePhase::Wait;
                    ResolveAction::Wait { millis: delay_before_retry(self.retries) }
                } else {
                    self.phase = ResolvePhase::Finished;
                    ResolveAction::Propagate
                }
            },
            (ResolvePhase::Wait, ResolveEvent::Waited) => {
                if self.retries < MAX_RESOLVE_RETRIES {
                    self.retries = self.retries + 1;
                    self.phase = ResolvePhase::Select;
                    ResolveAction::Select
                } else {
                    ResolveAction::Unexpected
                }
            },
            _ => ResolveAction::Unexpected,
        }
    }
}

/// The durable table's answer to a select of `name`.
pub open spec fn select_reply<K>(t: Map<Seq<char>, K>, name: Seq<char>) -> ResolveEvent<K> {
    ResolveEvent::Selected(
        if t.contains_key(name) {
            Some(t[name])
        } else {
            None
        },
    )
}

/// An insert of `name` with identifier `fresh` into a table whose names are unique: where
/// `name` is absent it is stored and its row comes back; otherwise the insert fails with
/// the error text `violation` and the table is unchanged.
pub open spec fn insert_outcome<K>(
    t: Map<Seq<char>, K>,
    name: Seq<char>,
    fresh: K,
    violation: String,
) -> (Map<Seq<char>, K>, ResolveEvent<K>) {
    if t.contains_key(name) {
        (t, ResolveEvent::InsertFailed(violation))
    } else {
        (t.insert(name, fresh), ResolveEvent::Inserted(Some(fresh)))
    }
}

/// Two resolutions of the same new name that both find it absent and then both insert it
/// agree on its identifier: the first insert is the only one that survives, the second
/// fails on the uniqueness constraint, and after one pause a single select gives the
/// loser the winner's identifier.
pub proof fn lemma_racing_resolutions_agree<K>(
    t: Map<Seq<char>, K>,
    name: Seq<char>,
    id_a: K,
    id_b: K,
    violation: String,
)
    requires
        !t.contains_key(name),
        contains_seq(violation@, unique_violation_text()),
    ensures
        ({
            let s0 = UniqueKeyResolver { retries: 0, phase: ResolvePhase::Select };
            let (a1, act_a1) = resolve_next(s0, select_reply(t, name));
            let (b1, act_b1) = resolve_next(s0, select_reply(t, name));
            let (t2, ev_a) = insert_outcome(t, name, id_a, violation);
            let (a2, act_a2) = resolve_next(a1, ev_a);
            let (t3, ev_b) = insert_outcome(t2, name, id_b, violation);
            let (b2, act_b2) = resolve_next(b1, ev_b);
            let (b3, act_b3) = resolve_next(b2, ResolveEvent::<K>::Waited);
            let (b4, act_b4) = resolve_next(b3, select_reply(t3, name));
            &&& act_a1 == ResolveAction::<K>::Insert
            &&& act_b1 == ResolveAction::<K>::Insert
            &&& act_a2 == ResolveAction::Return(id_a)
            &&& act_b2 == ResolveAction::<K>::Wait { millis: RETRY_BASE_MILLIS }
            &&& act_b3 == ResolveAction::<K>::Select
            &&& act_b4 == ResolveAction::Return(id_a)
            &&& t3 == t.insert(name, id_a)
        }),
{
    assert(t.insert(name, id_a).contains_key(name));
}

} // verus!
