use rusqlite::Connection;
use topic_cache::{Acquire, Cache, CacheConfig};

fn new_cache() -> Cache {
    Cache::new(CacheConfig::default(), Connection::open_in_memory().unwrap()).unwrap()
}

#[test]
fn test_new_drop() {
    let cache = Cache::new(
        CacheConfig::default(),
        Connection::open_in_memory().unwrap(),
    )
    .unwrap();
    drop(cache);
}

#[test]
fn test_get_update() {
    let mut cache = new_cache();
    let mut topic = cache.topic("test-topic").unwrap();
    cache.topic("test-topic-2").unwrap(); // not used
    assert!(topic.get(&mut cache, "hello").unwrap().is_none());

    let acquired = topic.try_get_for_update(&cache, "hello").unwrap();
    let updater = match acquired {
        Acquire::Acquired(updater, value) => {
            assert!(value.is_none());
            updater
        }
        Acquire::MustWait(_) => panic!("lock failed"),
    };
    updater
        .write(&mut topic, &mut cache, b"world", 1)
        .unwrap();
    assert!(&topic.get(&mut cache, "hello").unwrap().unwrap().data[..] == b"world");
    topic.delete(&cache, "hello").unwrap();
    assert!(topic.get(&mut cache, "hello").unwrap().is_none());
}

#[test]
fn test_update_lock() {
    let mut cache = new_cache();
    let mut topic = cache.topic("test-topic").unwrap();
    let first = match topic.try_get_for_update(&cache, "hello").unwrap() {
        Acquire::Acquired(updater, _) => updater,
        Acquire::MustWait(_) => panic!("lock failed"),
    };
    // A second caller on the held key must wait.
    let mut rx = match topic.try_get_for_update(&cache, "hello").unwrap() {
        Acquire::Acquired(_, _) => panic!("mutual exclusion violated"),
        Acquire::MustWait(rx) => rx,
    };
    assert!(rx.try_recv().unwrap().is_none());

    // Writing through the holder releases the key and wakes the waiter.
    first
        .write(&mut topic, &mut cache, b"world", 1)
        .unwrap();
    assert_eq!(rx.try_recv().unwrap(), Some(()));

    // The woken waiter retries and now acquires, observing the new value.
    match topic.try_get_for_update(&cache, "hello").unwrap() {
        Acquire::Acquired(updater, value) => {
            assert_eq!(&value.unwrap().data[..], b"world");
            updater.release(&mut topic);
        }
        Acquire::MustWait(_) => panic!("lock failed"),
    }
}

#[test]
fn test_gc() {
    // flush_interval 100 (ms) with a gc every 5th cycle, as a manually
    // driven schedule over a logical clock in seconds.
    let mut cache = Cache::new(
        CacheConfig {
            flush_interval_ms: 100,
            flush_gc_ratio: 5,
            ..CacheConfig::default()
        },
        Connection::open_in_memory().unwrap(),
    )
    .unwrap();
    let mut topic = cache.topic("test-topic").unwrap();
    let mut now: u64 = 1000;
    match topic.try_get_for_update(&cache, "hello").unwrap() {
        Acquire::Acquired(updater, value) => {
            assert!(value.is_none());
            updater.release(&mut topic);
        }
        Acquire::MustWait(_) => panic!("lock failed"),
    }
    topic.set_at(&mut cache, "hello", b"world", 10, now).unwrap();
    assert!(&topic.get_at(&mut cache, "hello", now).unwrap().unwrap().data[..] == b"world");
    cache.flush();

    // Keep the key alive for 20 rounds of 7 logical seconds each, flushing
    // and sweeping on the configured cadence; the 10-second ttl never
    // elapses between refreshes.
    let mut sched = topic_cache::maint::MaintState::new(5);
    let mut round: u32 = 0;
    while round < 20 {
        now += 7;
        if round % 2 == 0 {
            let value = topic.get_at(&mut cache, "hello", now).unwrap().unwrap();
            assert!(&value.data[..] == b"world");
        } else {
            topic.set_at(&mut cache, "hello", b"world", 10, now).unwrap();
        }
        match sched.step(topic_cache::maint::MaintEvent::Tick) {
            topic_cache::maint::MaintAction::Flush => cache.flush(),
            topic_cache::maint::MaintAction::FlushAndGc => {
                cache.flush();
                cache.gc_at(now).unwrap();
            }
            topic_cache::maint::MaintAction::Terminate => panic!("unexpected stop"),
        }
        round += 1;
    }

    // Stop refreshing, let well over the ttl pass, and sweep: the key is
    // gone and the row physically removed.
    now += 40;
    cache.flush();
    let removed = cache.gc_at(now).unwrap();
    assert_eq!(removed, 1);
    assert!(topic.get_at(&mut cache, "hello", now).unwrap().is_none());
}
