use vstd::prelude::*;
use vstd::string::StringExecFns;
use vstd::string::StringSliceAdditionalSpecFns;
use crate::batch::ExpiryBatch;
use crate::config::CacheConfig;
use crate::names::table_name_for;
use crate::names::table_name_seq;
use crate::registry::LockRegistry;
use crate::registry::enqueue;
use crate::registry::free;
use crate::registry::grant;
use crate::registry::locked;
use crate::store;
use crate::store::StoreError;

verus! {

/// The largest representable timestamp or time-to-live, in seconds: the
/// backing store keeps them in signed 64-bit columns.
pub const MAX_STAMP: u64 = 0x7fff_ffff_ffff_ffff;

/// The requested time-to-live after clamping: capped by the configured
/// maximum, if one is set, and by the largest representable value.
pub open spec fn spec_clamped_ttl(ttl: u64, max_ttl: Option<u64>) -> u64 {
    let capped = match max_ttl {
        Some(m) => if ttl > m {
            m
        } else {
            ttl
        },
        None => ttl,
    };
    if capped > MAX_STAMP {
        MAX_STAMP
    } else {
        capped
    }
}

/// The absolute expiry a row written at `now` with time-to-live `ttl`
/// receives: their sum, clamped to the representable range.
pub open spec fn spec_expiry_at(now: u64, ttl: u64) -> u64 {
    if now + ttl > MAX_STAMP {
        MAX_STAMP
    } else {
        (now + ttl) as u64
    }
}

/// Clamps a requested time-to-live by the configured maximum, if any, and
/// by the largest representable value.
pub fn clamped_ttl(ttl: u64, max_ttl: Option<u64>) -> (r: u64)
    ensures
        r == spec_clamped_ttl(ttl, max_ttl),
        r <= MAX_STAMP,
{
    let mut t = ttl;
    if let Some(m) = max_ttl {
        if t > m {
            t = m;
        }
    }
    if t > MAX_STAMP {
        MAX_STAMP
    } else {
        t
    }
}

/// The absolute expiry for a write at `now` with the already-clamped
/// time-to-live `ttl`.
pub fn expiry_at(now: u64, ttl: u64) -> (r: u64)
    ensures
        r == spec_expiry_at(now, ttl),
{
    let s = now.saturating_add(ttl);
    if s > MAX_STAMP {
        MAX_STAMP
    } else {
        s
    }
}

/// A stored row's expiry follows the documented invariant: it is the write
/// time plus the requested time-to-live capped by the configured maximum,
/// the whole clamped to the representable timestamp range.
pub proof fn lemma_expiry_invariant(now: u64, ttl: u64, max_ttl: Option<u64>)
    ensures
        spec_expiry_at(now, spec_clamped_ttl(ttl, max_ttl)) == vstd::math::min(
            now + spec_clamped_ttl(ttl, max_ttl),
            MAX_STAMP as int,
        ),
        match max_ttl {
            Some(m) => spec_clamped_ttl(ttl, max_ttl) == vstd::math::min(
                vstd::math::min(ttl as int, m as int),
                MAX_STAMP as int,
            ),
            None => spec_clamped_ttl(ttl, max_ttl) == vstd::math::min(
                ttl as int,
                MAX_STAMP as int,
            ),
        },
{
}

/// One stored value: the opaque bytes and the epoch seconds at which the
/// row was last written.
pub struct Value {
    /// The stored bytes.
    pub data: Vec<u8>,
    /// Epoch seconds of the last write of this row.
    pub created_at: u64,
}

/// The cache controller: owns the store connection, the configuration and
/// the deferred expiry update batch. Topics are derived from it, and the
/// maintenance loop drives `flush` and `gc` against it.
pub struct Cache {
    config: CacheConfig,
    conn: rusqlite::Connection,
    batch: ExpiryBatch,
}

/// A namespace handle bound to one topic table. It hosts the per-key lock
/// registry used by the cache-fill protocol; two independently derived
/// handles for the same name share the table but not the registry.
pub struct Topic {
    /// The identifier of the table this topic reads and writes.
    pub table_name: String,
    registry: LockRegistry,
}

/// A scoped token of exclusive update rights over one key of one topic
/// handle. It is consumed by `write`, which persists a value and releases,
/// or given back unused through `release`; both wake every waiter.
pub struct KeyUpdater {
    key: String,
}

/// The outcome of one acquisition attempt in the cache-fill protocol.
pub enum Acquire {
    /// The caller now holds the key: a token of its update rights, and the
    /// value currently stored under the key, if any.
    Acquired(KeyUpdater, Option<Value>),
    /// Another caller holds the key; wait on this signal, then try again.
    MustWait(futures::channel::oneshot::Receiver<()>),
}

impl Cache {
    /// The controller is usable: its configuration and batch are.
    pub closed spec fn wf(self) -> bool {
        self.batch.wf() && self.config.wf()
    }

    /// The deferred expiry updates not yet flushed: (table, key) to the
    /// pending absolute expiry.
    pub closed spec fn pending(self) -> Map<(Seq<char>, Seq<char>), u64> {
        self.batch@
    }

    /// The configuration the controller was built with.
    pub closed spec fn spec_config(self) -> CacheConfig {
        self.config
    }

    /// Builds a controller over a store connection: turns on write-ahead
    /// logging for durability and starts with nothing pending. The
    /// garbage-collection cadence must be positive.
    pub fn new(config: CacheConfig, conn: rusqlite::Connection) -> (r: Result<Cache, StoreError>)
        requires
            config.wf(),
        ensures
            match r {
                Ok(c) => c.wf() && c.spec_config() == config && c.pending() == Map::<
                    (Seq<char>, Seq<char>),
                    u64,
                >::empty(),
                Err(_) => true,
            },
    {
        match store::exec_batch(&conn, "pragma journal_mode = wal;") {
            Ok(_) => Ok(Cache { config, conn, batch: ExpiryBatch::new() }),
            Err(e) => Err(StoreError { cause: e }),
        }
    }

    /// The configuration the controller was built with.
    pub fn config(&self) -> (r: &CacheConfig)
        ensures
            *r == self.spec_config(),
    {
        &self.config
    }

    /// The pending expiry refresh recorded for a key of a topic, if any.
    pub fn pending_refresh(&self, topic: &Topic, key: &str) -> (r: Option<u64>)
        requires
            self.wf(),
        ensures
            match r {
                Some(e) => self.pending().contains_key((topic.table(), key@))
                    && self.pending()[(topic.table(), key@)] == e,
                None => !self.pending().contains_key((topic.table(), key@)),
            },
    {
        self.batch.pending(&topic.table_name, &key.to_owned())
    }

    /// Derives the topic handle for `name`: idempotently provisions its
    /// table (with an index on the expiry column for the sweep) and returns
    /// a fresh handle with every key free. Distinct names never share a
    /// table.
    pub fn topic(&self, name: &str) -> (r: Result<Topic, StoreError>)
        ensures
            match r {
                Ok(t) => t.wf() && t.table() == table_name_seq(name.spec_bytes()) && t.locks()
                    == Map::<Seq<char>, nat>::empty() && (forall|other: Seq<u8>|
                    t.table() == #[trigger] table_name_seq(other) ==> other
                        == name.spec_bytes()),
                Err(_) => true,
            },
    {
        let table = table_name_for(name);
        let sql = "begin transaction;\ncreate table if not exists ".to_owned().concat(
            table.as_str(),
        ).concat(
            " (\n    k text primary key not null,\n    v blob not null,\n    created_at integer not null default (cast(strftime('%s', 'now') as integer)),\n    expiry integer not null,\n    ttl integer not null\n);\ncreate index if not exists ",
        ).concat(table.as_str()).concat("_by_expiry on ").concat(table.as_str()).concat(
            " (expiry);\ncommit;",
        );
        match store::exec_batch(&self.conn, sql.as_str()) {
            Ok(_) => Ok(Topic { table_name: table, registry: LockRegistry::new() }),
            Err(e) => Err(StoreError { cause: e }),
        }
    }

    /// Flushes the deferred expiry batch: drains it atomically and applies
    /// each pending refresh to its row. A refresh that fails to apply is
    /// dropped, not retried; nothing stays pending.
    pub fn flush(&mut self)
        requires
            old(self).wf(),
        ensures
            final(self).wf(),
            final(self).spec_config() == old(self).spec_config(),
            final(self).pending() == Map::<(Seq<char>, Seq<char>), u64>::empty(),
    {
        let entries = self.batch.take();
        let mut i: usize = 0;
        while i < entries.len()
            invariant
                self.wf(),
                self.spec_config() == old(self).spec_config(),
                self.pending() == Map::<(Seq<char>, Seq<char>), u64>::empty(),
            decreases entries@.len() - i,
        {
            let sql = "update ".to_owned().concat(entries[i].table.as_str()).concat(
                " set expiry = ? where k = ?",
            );
            let _ = store::exec_int_text(
                &self.conn,
                sql.as_str(),
                entries[i].expiry,
                entries[i].key.as_str(),
            );
            i = i + 1;
        }
    }

    /// Sweeps every topic table at logical time `now`: deletes the rows
    /// whose expiry lies strictly before `now` and returns how many rows
    /// went, or the first storage error, which aborts the pass.
    pub fn gc_at(&self, now: u64) -> (r: Result<usize, StoreError>) {
        let tables = match store::query_names(
            &self.conn,
            "select name from sqlite_master where type = 'table' and name like 'topic_%'",
        ) {
            Ok(t) => t,
            Err(e) => {
                return Err(StoreError { cause: e });
            },
        };
        let mut total: usize = 0;
        let mut i: usize = 0;
        while i < tables.len()
            decreases tables@.len() - i,
        {
            let sql = "delete from ".to_owned().concat(tables[i].as_str()).concat(
                " where expiry < ?",
            );
            match store::exec_int(&self.conn, sql.as_str(), now) {
                Ok(n) => {
                    total = total.saturating_add(n);
                },
                Err(e) => {
                    return Err(StoreError { cause: e });
                },
            }
            i = i + 1;
        }
        Ok(total)
    }

    /// Sweeps expired rows as of the current clock time.
    pub fn gc(&self) -> (r: Result<usize, StoreError>) {
        let now = store::now_seconds();
        self.gc_at(now)
    }
}

impl Topic {
    /// The handle is usable: its lock registry is.
    pub closed spec fn wf(self) -> bool {
        self.registry.wf()
    }

    /// The identifier of the table this topic reads and writes.
    pub closed spec fn table(self) -> Seq<char> {
        self.table_name@
    }

    /// The keys this handle currently holds for update, each with its
    /// number of waiters.
    pub closed spec fn locks(self) -> Map<Seq<char>, nat> {
        self.registry@
    }

    /// Reads the value stored under `key` as of logical time `now`. A hit
    /// also records a deferred expiry refresh for the key, recomputed from
    /// `now` and the row's time-to-live, overwriting any pending one; no
    /// synchronous write happens. A miss is an empty result, not an error.
    pub fn get_at(&self, cache: &mut Cache, key: &str, now: u64) -> (r: Result<
        Option<Value>,
        StoreError,
    >)
        requires
            old(cache).wf(),
        ensures
            final(cache).wf(),
            final(cache).spec_config() == old(cache).spec_config(),
            match r {
                Ok(Some(_)) => exists|t: u64|
                    final(cache).pending() == old(cache).pending().insert(
                        (self.table(), key@),
                        spec_expiry_at(
                            now,
                            spec_clamped_ttl(t, old(cache).spec_config().max_ttl_secs),
                        ),
                    ),
                Ok(None) => final(cache).pending() == old(cache).pending(),
                Err(_) => final(cache).pending() == old(cache).pending(),
            },
    {
        let sql = "select v, created_at, ttl from ".to_owned().concat(self.table_name.as_str())
            .concat(" where k = ?");
        match store::query_entry(&cache.conn, sql.as_str(), key) {
            Ok(Some((data, created_at, ttl))) => {
                let refreshed = expiry_at(now, clamped_ttl(ttl, cache.config().max_ttl_secs));
                cache.batch.record(&self.table_name, &key.to_owned(), refreshed);
                proof {
                    assert(cache.pending() == old(cache).pending().insert(
                        (self.table(), key@),
                        spec_expiry_at(
                            now,
                            spec_clamped_ttl(ttl, old(cache).spec_config().max_ttl_secs),
                        ),
                    ));
                }
                Ok(Some(Value { data, created_at }))
            },
            Ok(None) => Ok(None),
            Err(e) => Err(StoreError { cause: e }),
        }
    }

    /// Reads the value stored under `key` as of the current clock time,
    /// recording a deferred expiry refresh on a hit.
    pub fn get(&self, cache: &mut Cache, key: &str) -> (r: Result<Option<Value>, StoreError>)
        requires
            old(cache).wf(),
        ensures
            final(cache).wf(),
            final(cache).spec_config() == old(cache).spec_config(),
            match r {
                Ok(Some(_)) => exists|e: u64|
                    final(cache).pending() == old(cache).pending().insert(
                        (self.table(), key@),
                        e,
                    ),
                Ok(None) => final(cache).pending() == old(cache).pending(),
                Err(_) => final(cache).pending() == old(cache).pending(),
            },
    {
        let now = store::now_seconds();
        self.get_at(cache, key, now)
    }

    /// Replaces the whole row for `key` as of logical time `now`: the value,
    /// a fresh expiry computed from the clamped `ttl_secs`, and the
    /// time-to-live itself, so later reads can refresh the expiry. A
    /// successful write discards any pending expiry refresh for the key: a
    /// direct write always wins over a stale pending refresh.
    pub fn set_at(
        &self,
        cache: &mut Cache,
        key: &str,
        value: &[u8],
        ttl_secs: u64,
        now: u64,
    ) -> (r: Result<(), StoreError>)
        requires
            old(cache).wf(),
        ensures
            final(cache).wf(),
            final(cache).spec_config() == old(cache).spec_config(),
            match r {
                Ok(_) => final(cache).pending() == old(cache).pending().remove(
                    (self.table(), key@),
                ),
                Err(_) => final(cache).pending() == old(cache).pending(),
            },
    {
        let ttl = clamped_ttl(ttl_secs, cache.config().max_ttl_secs);
        let expiry = expiry_at(now, ttl);
        let sql = "replace into ".to_owned().concat(self.table_name.as_str()).concat(
            " (k, v, expiry, ttl) values(?, ?, ?, ?)",
        );
        match store::exec_row(&cache.conn, sql.as_str(), key, value, expiry, ttl) {
            Ok(_) => {
                cache.batch.clear(&self.table_name, &key.to_owned());
                Ok(())
            },
            Err(e) => Err(StoreError { cause: e }),
        }
    }

    /// Replaces the whole row for `key` as of the current clock time.
    pub fn set(&self, cache: &mut Cache, key: &str, value: &[u8], ttl_secs: u64) -> (r: Result<
        (),
        StoreError,
    >)
        requires
            old(cache).wf(),
        ensures
            final(cache).wf(),
            final(cache).spec_config() == old(cache).spec_config(),
            match r {
                Ok(_) => final(cache).pending() == old(cache).pending().remove(
                    (self.table(), key@),
                ),
                Err(_) => final(cache).pending() == old(cache).pending(),
            },
    {
        let now = store::now_seconds();
        self.set_at(cache, key, value, ttl_secs, now)
    }

    /// Removes the row for `key` unconditionally; a key with no row is not
    /// an error. Nothing pending or locked is touched.
    pub fn delete(&self, cache: &Cache, key: &str) -> (r: Result<(), StoreError>) {
        let sql = "delete from ".to_owned().concat(self.table_name.as_str()).concat(
            " where k = ?",
        );
        match store::exec_text(&cache.conn, sql.as_str(), key) {
            Ok(_) => Ok(()),
            Err(e) => Err(StoreError { cause: e }),
        }
    }

    /// One attempt of the cache-fill protocol. If `key` is free on this
    /// handle, it is locked and the caller gets its update token together
    /// with the value currently stored (read without registering a refresh:
    /// the caller is expected to supply a fresh value). If the key is held,
    /// the caller gets a wake signal to wait on before retrying; any of the
    /// waiters may win the next attempt. If the read fails, the key is
    /// released again and the error propagates.
    pub fn try_get_for_update(&mut self, cache: &Cache, key: &str) -> (r: Result<
        Acquire,
        StoreError,
    >)
        requires
            old(self).wf(),
        ensures
            final(self).wf(),
            final(self).table() == old(self).table(),
            match r {
                Ok(a) => match a {
                    Acquire::Acquired(u, _) => !locked(old(self).locks(), key@) && final(self).locks() == grant(old(self).locks(), key@) && u.spec_key() == key@,
                    Acquire::MustWait(_) => locked(old(self).locks(), key@) && final(self).locks()
                        == enqueue(old(self).locks(), key@),
                },
                Err(_) => !locked(old(self).locks(), key@) && final(self).locks() == old(self).locks(),
            },
    {
        match self.registry.try_acquire(key) {
            Some(rx) => Ok(Acquire::MustWait(rx)),
            None => {
                let sql = "select v, created_at, ttl from ".to_owned().concat(
                    self.table_name.as_str(),
                ).concat(" where k = ?");
                match store::query_entry(&cache.conn, sql.as_str(), key) {
                    Ok(row) => {
                        let value = match row {
                            Some((data, created_at, _)) => Some(Value { data, created_at }),
                            None => None,
                        };
                        Ok(Acquire::Acquired(KeyUpdater { key: key.to_owned() }, value))
                    },
                    Err(e) => {
                        let _ = self.registry.release(key);
                        proof {
                            assert(self.locks() =~= old(self).locks());
                        }
                        Err(StoreError { cause: e })
                    },
                }
            },
        }
    }
}

impl KeyUpdater {
    /// The key this token holds for update.
    pub closed spec fn spec_key(self) -> Seq<char> {
        self.key@
    }

    /// The key this token holds for update.
    pub fn key(&self) -> (r: &String)
        ensures
            r@ == self.spec_key(),
    {
        &self.key
    }

    /// Consumes the token: persists `value` under the key through `set`,
    /// then releases the lock and wakes every waiter. The lock is released
    /// even when the write fails; the error still propagates.
    pub fn write(
        self,
        topic: &mut Topic,
        cache: &mut Cache,
        value: &[u8],
        ttl_secs: u64,
    ) -> (r: Result<(), StoreError>)
        requires
            old(topic).wf(),
            old(cache).wf(),
            locked(old(topic).locks(), self.spec_key()),
        ensures
            final(topic).wf(),
            final(cache).wf(),
            final(topic).table() == old(topic).table(),
            final(topic).locks() == free(old(topic).locks(), self.spec_key()),
            final(cache).spec_config() == old(cache).spec_config(),
            match r {
                Ok(_) => final(cache).pending() == old(cache).pending().remove(
                    (old(topic).table(), self.spec_key()),
                ),
                Err(_) => final(cache).pending() == old(cache).pending(),
            },
    {
        let res = topic.set(cache, self.key.as_str(), value, ttl_secs);
        let _ = topic.registry.release(self.key.as_str());
        res
    }

    /// Gives the token back without writing: releases the lock and wakes
    /// every waiter, leaving the stored value as it was. Returns how many
    /// waiters were woken.
    pub fn release(self, topic: &mut Topic) -> (woken: usize)
        requires
            old(topic).wf(),
            locked(old(topic).locks(), self.spec_key()),
        ensures
            final(topic).wf(),
            final(topic).table() == old(topic).table(),
            final(topic).locks() == free(old(topic).locks(), self.spec_key()),
            woken == old(topic).locks()[self.spec_key()],
    {
        topic.registry.release(self.key.as_str())
    }
}

} // verus!
