use rusqlite::Connection;
use topic_cache::cache::{clamped_ttl, expiry_at, MAX_STAMP};
use topic_cache::maint::{MaintAction, MaintEvent, MaintState};
use topic_cache::{Acquire, Cache, CacheConfig};

fn new_cache() -> Cache {
    Cache::new(CacheConfig::default(), Connection::open_in_memory().unwrap()).unwrap()
}

#[test]
fn unwritten_key_reads_empty_and_delete_is_a_noop() {
    let mut cache = new_cache();
    let topic = cache.topic("letters").unwrap();
    assert!(topic.get(&mut cache, "never-written").unwrap().is_none());
    assert!(topic.get_at(&mut cache, "never-written", 50).unwrap().is_none());
    topic.delete(&cache, "never-written").unwrap();
    assert!(cache.pending_refresh(&topic, "never-written").is_none());
}

#[test]
fn round_trip_until_ttl_elapses() {
    let mut cache = new_cache();
    let topic = cache.topic("letters").unwrap();
    topic.set_at(&mut cache, "k", b"v1", 5, 100).unwrap();
    let value = topic.get_at(&mut cache, "k", 100).unwrap().unwrap();
    assert_eq!(&value.data[..], b"v1");

    // Still there just before the expiry passes the sweep's cutoff.
    assert_eq!(cache.gc_at(105).unwrap(), 0);
    assert!(topic.get_at(&mut cache, "k", 105).unwrap().is_some());

    // Overwriting converges to the same row state; reads see the last write.
    topic.set_at(&mut cache, "k", b"v2", 5, 100).unwrap();
    assert_eq!(&topic.get_at(&mut cache, "k", 100).unwrap().unwrap().data[..], b"v2");

    // After a delete the key reads empty.
    topic.delete(&cache, "k").unwrap();
    assert!(topic.get_at(&mut cache, "k", 100).unwrap().is_none());
}

#[test]
fn ttl_is_clamped_by_the_configured_maximum() {
    assert_eq!(clamped_ttl(100, Some(3)), 3);
    assert_eq!(clamped_ttl(2, Some(3)), 2);
    assert_eq!(clamped_ttl(100, None), 100);
    assert_eq!(clamped_ttl(u64::MAX, None), MAX_STAMP);
    assert_eq!(expiry_at(100, 5), 105);
    assert_eq!(expiry_at(u64::MAX, 5), MAX_STAMP);
    assert_eq!(expiry_at(MAX_STAMP, 1), MAX_STAMP);

    let mut cache = Cache::new(
        CacheConfig { max_ttl_secs: Some(3), ..CacheConfig::default() },
        Connection::open_in_memory().unwrap(),
    )
    .unwrap();
    let topic = cache.topic("letters").unwrap();
    // A requested ttl of 100 seconds is clamped to 3: the row is swept once
    // those 3 seconds have elapsed.
    topic.set_at(&mut cache, "k", b"v", 100, 1000).unwrap();
    assert_eq!(cache.gc_at(1004).unwrap(), 1);
    assert!(topic.get_at(&mut cache, "k", 1004).unwrap().is_none());
}

#[test]
fn read_refresh_is_deferred_and_superseded_by_set() {
    let mut cache = new_cache();
    let topic = cache.topic("letters").unwrap();
    topic.set_at(&mut cache, "k", b"v", 2, 100).unwrap();
    assert!(cache.pending_refresh(&topic, "k").is_none());

    // A read records the refreshed expiry in the batch, without writing.
    topic.get_at(&mut cache, "k", 101).unwrap().unwrap();
    assert_eq!(cache.pending_refresh(&topic, "k"), Some(103));

    // A later read overwrites the pending value.
    topic.get_at(&mut cache, "k", 102).unwrap().unwrap();
    assert_eq!(cache.pending_refresh(&topic, "k"), Some(104));

    // A direct write always wins over a stale pending refresh.
    topic.set_at(&mut cache, "k", b"v", 2, 102).unwrap();
    assert!(cache.pending_refresh(&topic, "k").is_none());

    // A new refresh is persisted by the flush cycle and consumed by it:
    // the row then survives a sweep past its earlier expiry.
    topic.get_at(&mut cache, "k", 103).unwrap().unwrap();
    assert_eq!(cache.pending_refresh(&topic, "k"), Some(105));
    cache.flush();
    assert!(cache.pending_refresh(&topic, "k").is_none());
    assert_eq!(cache.gc_at(104).unwrap(), 0);
    assert!(topic.get_at(&mut cache, "k", 104).unwrap().is_some());
    assert_eq!(cache.gc_at(106).unwrap(), 1);
    assert!(topic.get_at(&mut cache, "k", 106).unwrap().is_none());
}

#[test]
fn refresh_without_flush_does_not_write() {
    let mut cache = new_cache();
    let topic = cache.topic("letters").unwrap();
    topic.set_at(&mut cache, "k", b"v", 2, 100).unwrap();
    // The read refreshes only the in-memory batch; without a flush the
    // stored expiry stays at 102, so the sweep still removes the row.
    topic.get_at(&mut cache, "k", 101).unwrap().unwrap();
    assert_eq!(cache.gc_at(103).unwrap(), 1);
    assert!(topic.get_at(&mut cache, "k", 103).unwrap().is_none());
}

#[test]
fn abandoned_lock_frees_the_key_and_keeps_the_value() {
    let mut cache = new_cache();
    let mut topic = cache.topic("letters").unwrap();
    topic.set_at(&mut cache, "k", b"before", 100, 1000).unwrap();

    let updater = match topic.try_get_for_update(&cache, "k").unwrap() {
        Acquire::Acquired(updater, value) => {
            assert_eq!(&value.unwrap().data[..], b"before");
            updater
        }
        Acquire::MustWait(_) => panic!("lock failed"),
    };
    assert_eq!(updater.key(), "k");
    // Discard the lock without writing: the key is free again and the
    // pre-existing value is unchanged.
    assert_eq!(updater.release(&mut topic), 0);
    match topic.try_get_for_update(&cache, "k").unwrap() {
        Acquire::Acquired(updater, value) => {
            assert_eq!(&value.unwrap().data[..], b"before");
            updater.release(&mut topic);
        }
        Acquire::MustWait(_) => panic!("abandoned lock still held"),
    }
}

#[test]
fn release_wakes_every_waiter() {
    let mut cache = new_cache();
    let mut topic = cache.topic("letters").unwrap();
    let holder = match topic.try_get_for_update(&cache, "k").unwrap() {
        Acquire::Acquired(updater, _) => updater,
        Acquire::MustWait(_) => panic!("lock failed"),
    };
    let mut rx1 = match topic.try_get_for_update(&cache, "k").unwrap() {
        Acquire::MustWait(rx) => rx,
        Acquire::Acquired(_, _) => panic!("mutual exclusion violated"),
    };
    let mut rx2 = match topic.try_get_for_update(&cache, "k").unwrap() {
        Acquire::MustWait(rx) => rx,
        Acquire::Acquired(_, _) => panic!("mutual exclusion violated"),
    };
    assert!(rx1.try_recv().unwrap().is_none());
    assert!(rx2.try_recv().unwrap().is_none());
    assert_eq!(holder.release(&mut topic), 2);
    assert_eq!(rx1.try_recv().unwrap(), Some(()));
    assert_eq!(rx2.try_recv().unwrap(), Some(()));
}

#[test]
fn lock_registries_are_per_handle_and_per_key() {
    let mut cache = new_cache();
    let mut topic = cache.topic("letters").unwrap();
    let holder = match topic.try_get_for_update(&cache, "k").unwrap() {
        Acquire::Acquired(updater, _) => updater,
        Acquire::MustWait(_) => panic!("lock failed"),
    };
    // A different key on the same handle is unaffected.
    match topic.try_get_for_update(&cache, "other").unwrap() {
        Acquire::Acquired(updater, _) => {
            updater.release(&mut topic);
        }
        Acquire::MustWait(_) => panic!("independent key blocked"),
    }
    holder.release(&mut topic);
}

#[test]
fn distinct_topic_names_never_share_a_table() {
    let cache = new_cache();
    let a = cache.topic("test-topic").unwrap();
    let b = cache.topic("test-topic-2").unwrap();
    assert_ne!(a.table_name, b.table_name);
    // The identifier is the fixed prefix plus the unpadded base32 form of
    // the name, so it stays a valid identifier for arbitrary names.
    assert_eq!(a.table_name, "topic_ORSXG5BNORXXA2LD");
    assert_eq!(b.table_name, "topic_ORSXG5BNORXXA2LDFUZA");
    let odd = cache.topic("white space/and.dots!").unwrap();
    assert!(odd.table_name.chars().all(|c| c.is_ascii_alphanumeric() || c == '_'));
}

#[test]
fn maintenance_schedule_sweeps_every_nth_flush() {
    let mut state = MaintState::new(3);
    assert!(matches!(state.step(MaintEvent::Tick), MaintAction::Flush));
    assert!(matches!(state.step(MaintEvent::Tick), MaintAction::Flush));
    assert!(matches!(state.step(MaintEvent::Tick), MaintAction::FlushAndGc));
    assert!(matches!(state.step(MaintEvent::Tick), MaintAction::Flush));
    assert!(matches!(state.step(MaintEvent::Tick), MaintAction::Flush));
    assert!(matches!(state.step(MaintEvent::Tick), MaintAction::FlushAndGc));
    assert!(matches!(state.step(MaintEvent::Stop), MaintAction::Terminate));
}

#[test]
fn storage_errors_propagate() {
    // A connection that cannot run DDL surfaces a storage error either at
    // construction (setting the durability mode) or at topic provisioning.
    let conn = Connection::open_in_memory_with_flags(
        rusqlite::OpenFlags::SQLITE_OPEN_READ_ONLY,
    )
    .unwrap();
    match Cache::new(CacheConfig::default(), conn) {
        Ok(cache) => {
            assert!(cache.topic("letters").is_err());
        }
        Err(_) => {}
    }
}

#[test]
fn default_configuration_matches_the_documented_values() {
    let config = CacheConfig::default();
    assert_eq!(config.flush_interval_ms, 10_000);
    assert_eq!(config.flush_gc_ratio, 30);
    assert_eq!(config.max_ttl_secs, None);
    let cache = Cache::new(config, Connection::open_in_memory().unwrap()).unwrap();
    assert_eq!(cache.config().flush_gc_ratio, 30);
}

#[test]
fn construct_and_drop_completes() {
    let cache = new_cache();
    let topic = cache.topic("letters").unwrap();
    drop(cache);
    drop(topic);
}
