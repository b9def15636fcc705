use std::collections::{HashMap, HashSet};

use pachydurable::borg::{
    BorgAction, BorgEvent, BorgMachine, ResolveAction, ResolveEvent, UniqueKeyResolver,
    INSERT_NO_ROW_MESSAGE, MAX_RESOLVE_RETRIES,
};
use pachydurable::borg::is_unique_violation;
use pachydurable::redis::{CacheAside, CacheCommand, CacheReply, FetchAction, FetchEvent};

#[derive(Default)]
struct Store {
    values: HashMap<String, String>,
    expiry: HashMap<String, usize>,
    sets: HashMap<String, HashSet<String>>,
    commands: usize,
}

impl Store {
    fn perform(&mut self, c: CacheCommand) -> CacheReply {
        self.commands += 1;
        match c {
            CacheCommand::Get { key } => CacheReply::Value(self.values.get(&key).cloned()),
            CacheCommand::SetEx { key, value, seconds } => {
                self.expiry.insert(key.clone(), seconds);
                self.values.insert(key, value);
                CacheReply::Done
            }
            CacheCommand::IsMember { key, member } => CacheReply::IsMember(
                self.sets.get(&key).map(|s| s.contains(&member)).unwrap_or(false),
            ),
            CacheCommand::Cardinality { key } => {
                CacheReply::Cardinality(self.sets.get(&key).map(|s| s.len()).unwrap_or(0))
            }
            CacheCommand::Delete { key } => {
                self.values.remove(&key);
                self.expiry.remove(&key);
                self.sets.remove(&key);
                CacheReply::Done
            }
            CacheCommand::AddMember { key, member } => {
                self.sets.entry(key).or_default().insert(member);
                CacheReply::Done
            }
        }
    }
}

fn fetch_or_compute(
    store: &mut Store,
    key: &str,
    seconds: usize,
    compute: &mut dyn FnMut() -> Option<String>,
) -> Option<String> {
    let (mut m, mut a) = CacheAside::new(key.to_string(), seconds);
    loop {
        a = match a {
            FetchAction::Command(c) => {
                let reply = store.perform(c);
                m.step(FetchEvent::Reply(reply))
            }
            FetchAction::Compute => m.step(FetchEvent::Computed(compute())),
            FetchAction::Return(r) => return r,
            FetchAction::Unexpected => panic!("unexpected event"),
        }
    }
}

#[test]
fn cache_aside_computes_once_then_hits() {
    let mut store = Store::default();
    let mut calls = 0;
    let mut compute = || {
        calls += 1;
        Some("{\"v\":1}".to_string())
    };
    let first = fetch_or_compute(&mut store, "k", 60, &mut compute);
    let second = fetch_or_compute(&mut store, "k", 60, &mut compute);
    assert_eq!(first, Some("{\"v\":1}".to_string()));
    assert_eq!(second, first);
    assert_eq!(calls, 1);
    assert_eq!(store.values.get("k"), Some(&"{\"v\":1}".to_string()));
}

#[test]
fn cache_aside_record_cached_with_ttl() {
    let mut store = Store::default();
    let mut obj = serde_json::Map::new();
    obj.insert("id".to_string(), serde_json::Value::from(7));
    obj.insert("name".to_string(), serde_json::Value::from("fox"));
    let record = serde_json::Value::Object(obj).to_string();
    let mut durable_up = true;
    let mut queries = 0;
    let first = fetch_or_compute(&mut store, "k_fox", 3600, &mut || {
        queries += 1;
        if durable_up {
            Some(record.clone())
        } else {
            None
        }
    });
    assert_eq!(first.as_deref(), Some(record.as_str()));
    assert_eq!(store.expiry.get("k_fox"), Some(&3600));
    durable_up = false;
    let second = fetch_or_compute(&mut store, "k_fox", 3600, &mut || {
        if durable_up {
            Some(String::new())
        } else {
            panic!("the durable store is down")
        }
    });
    assert_eq!(second.as_deref(), Some(record.as_str()));
    assert_eq!(queries, 1);
    let v: serde_json::Value = serde_json::from_str(&second.unwrap()).unwrap();
    assert_eq!(v["id"], 7);
    assert_eq!(v["name"], "fox");
}

#[test]
fn cache_aside_absence_not_cached() {
    let mut store = Store::default();
    let mut calls = 0;
    let mut compute = || {
        calls += 1;
        None
    };
    assert_eq!(fetch_or_compute(&mut store, "k", 60, &mut compute), None);
    assert_eq!(fetch_or_compute(&mut store, "k", 60, &mut compute), None);
    assert_eq!(calls, 2);
    assert!(store.values.is_empty());
}

#[test]
fn cache_aside_unexpected_event() {
    let (mut m, _) = CacheAside::new("k".to_string(), 1);
    assert_eq!(m.step(FetchEvent::Computed(None)), FetchAction::Unexpected);
    assert_eq!(m.step(FetchEvent::Reply(CacheReply::Value(None))), FetchAction::Compute);
}

struct Run {
    result: BorgAction,
    first_sights: usize,
    computed: usize,
    generated_from_cache: bool,
}

fn construct(store: &mut Store, prefix: &str, suffix: &str, max: usize, member: &str) -> Run {
    let (mut m, mut a) = BorgMachine::new(prefix, suffix, 7200, max);
    let mut run = Run { result: BorgAction::Unexpected, first_sights: 0, computed: 0, generated_from_cache: false };
    loop {
        a = match a {
            BorgAction::Command(c) => {
                let reply = store.perform(c);
                m.step(BorgEvent::Reply(reply))
            }
            BorgAction::ComputeIntermediate => {
                run.computed += 1;
                m.step(BorgEvent::Computed("\"r\"".to_string()))
            }
            BorgAction::Generate { cached } => {
                run.generated_from_cache = cached.is_some();
                m.step(BorgEvent::Instantiated(member.to_string()))
            }
            BorgAction::OnFirstSight => {
                run.first_sights += 1;
                m.step(BorgEvent::HookDone)
            }
            BorgAction::OnInvocation | BorgAction::OnInstantiation => m.step(BorgEvent::HookDone),
            other => {
                run.result = other;
                return run;
            }
        }
    }
}

#[test]
fn borg_first_sight_hook_runs_once() {
    let mut store = Store::default();
    let a = construct(&mut store, "city", "1", 1_000_000, "richmond");
    let b = construct(&mut store, "city", "1", 1_000_000, "richmond");
    assert_eq!(a.result, BorgAction::Return);
    assert_eq!(b.result, BorgAction::Return);
    assert_eq!(a.first_sights + b.first_sights, 1);
    assert_eq!(a.computed, 1);
    assert_eq!(b.computed, 0);
    assert!(!a.generated_from_cache);
    assert!(b.generated_from_cache);
    assert_eq!(store.expiry.get("r_city_1"), Some(&7200));
    assert!(store.sets["pks_city"].contains("richmond"));
}

#[test]
fn borg_eviction_clears_set() {
    let mut store = Store::default();
    for m in ["a", "b", "c"].iter() {
        construct(&mut store, "city", "1", 2, m);
    }
    assert_eq!(store.sets["pks_city"].len(), 3);
    let r = construct(&mut store, "city", "1", 2, "d");
    assert_eq!(r.first_sights, 1);
    assert_eq!(store.sets["pks_city"].len(), 1);
    assert!(store.sets["pks_city"].contains("d"));
}

#[test]
fn borg_set_grows_up_to_bound() {
    let mut store = Store::default();
    construct(&mut store, "city", "1", 2, "a");
    construct(&mut store, "city", "1", 2, "b");
    construct(&mut store, "city", "1", 2, "c");
    assert_eq!(store.sets["pks_city"].len(), 3);
}

#[test]
fn borg_unexpected_event() {
    let (mut m, _) = BorgMachine::new("p", "s", 1, 1);
    assert_eq!(m.step(BorgEvent::Instantiated("x".to_string())), BorgAction::Unexpected);
    assert_eq!(
        m.step(BorgEvent::HookDone),
        BorgAction::Command(CacheCommand::Get { key: "r_p_s".to_string() })
    );
}

const DUP: &str = "db error: ERROR: duplicate key value violates unique constraint \"names_name_key\"";

#[test]
fn resolve_racing_writers_agree() {
    let mut table: HashMap<String, i64> = HashMap::new();
    let (mut a, a0) = UniqueKeyResolver::new::<i64>();
    let (mut b, b0) = UniqueKeyResolver::new::<i64>();
    assert_eq!(a0, ResolveAction::Select);
    assert_eq!(b0, ResolveAction::Select);
    assert_eq!(a.step(ResolveEvent::<i64>::Selected(table.get("fox").cloned())), ResolveAction::Insert);
    assert_eq!(b.step(ResolveEvent::<i64>::Selected(table.get("fox").cloned())), ResolveAction::Insert);
    table.insert("fox".to_string(), 7);
    assert_eq!(a.step(ResolveEvent::<i64>::Inserted(Some(7))), ResolveAction::Return(7));
    let mut b_selects = 0;
    assert_eq!(b.step(ResolveEvent::<i64>::InsertFailed(DUP.to_string())), ResolveAction::Wait { millis: 100 });
    assert_eq!(b.step(ResolveEvent::<i64>::Waited), ResolveAction::Select);
    b_selects += 1;
    assert_eq!(b.step(ResolveEvent::<i64>::Selected(table.get("fox").cloned())), ResolveAction::Return(7));
    assert_eq!(b_selects, 1);
    assert_eq!(table.len(), 1);
}

#[test]
fn resolve_existing_name() {
    let (mut r, _) = UniqueKeyResolver::new::<i64>();
    assert_eq!(r.step(ResolveEvent::<i64>::Selected(Some(3))), ResolveAction::Return(3));
}

#[test]
fn resolve_insert_without_row() {
    let (mut r, _) = UniqueKeyResolver::new::<i64>();
    r.step(ResolveEvent::<i64>::Selected(None));
    assert_eq!(r.step(ResolveEvent::<i64>::Inserted(None)), ResolveAction::InsertReturnedNoRow);
    assert_eq!(INSERT_NO_ROW_MESSAGE, "insert succeeded but no row returned");
}

#[test]
fn resolve_other_insert_error_propagates() {
    let (mut r, _) = UniqueKeyResolver::new::<i64>();
    r.step(ResolveEvent::<i64>::Selected(None));
    assert_eq!(
        r.step(ResolveEvent::<i64>::InsertFailed("connection closed".to_string())),
        ResolveAction::Propagate
    );
}

#[test]
fn resolve_retries_are_bounded_with_backoff() {
    let (mut r, _) = UniqueKeyResolver::new::<i64>();
    let mut delays = Vec::new();
    loop {
        assert_eq!(r.step(ResolveEvent::<i64>::Selected(None)), ResolveAction::Insert);
        match r.step(ResolveEvent::<i64>::InsertFailed(DUP.to_string())) {
            ResolveAction::Wait { millis } => {
                delays.push(millis);
                assert_eq!(r.step(ResolveEvent::<i64>::Waited), ResolveAction::Select);
            }
            ResolveAction::Propagate => break,
            other => panic!("unexpected {:?}", other),
        }
    }
    assert_eq!(delays.len(), MAX_RESOLVE_RETRIES as usize);
    assert_eq!(delays, vec![100, 200, 400, 800, 1600, 3200, 6400]);
}

#[test]
fn unique_violation_detection() {
    assert!(is_unique_violation(DUP));
    assert!(!is_unique_violation("duplicate key"));
    assert!(!is_unique_violation(""));
}
