//! The gateway's shared state and the decisions of its request paths.
//!
//! Every method here runs under the one lock that guards a `Context`; the
//! caller releases that lock while a tool runs and takes it again to record
//! the outcome, so no tool ever runs with the lock held.
use vstd::prelude::*;
use crate::cache::{Cache, CacheEntry, EntryView, expiry_after, lookup_at, opt_view, entry_view};
use crate::clock::now_nanos;
use crate::config::Config;
use crate::jobs::{ImportQueue, ImportStatus, after_failure};
use crate::key::{cache_key, invocation_key, views};
use crate::runner::{GatewayError, ProcessOutput, RunOutcome, check_output, run_result};

verus! {

/// The key under which the image listing is cached.
pub open spec fn listing_key() -> Seq<char> {
    invocation_key("imgadm"@, seq!["list"@, "-j"@])
}

/// The key under which the manifest of image `id` is cached.
pub open spec fn image_key(id: Seq<char>) -> Seq<char> {
    invocation_key("imgadm"@, seq!["get"@, id])
}

/// The cache after a delete of image `id`: its manifest and the listing
/// are gone.
pub open spec fn invalidated(m: Map<Seq<char>, EntryView>, id: Seq<char>) -> Map<
    Seq<char>,
    EntryView,
> {
    m.remove(image_key(id)).remove(listing_key())
}

/// The cache after a read through `key` came to `outcome` at `now`: a
/// successful output is stored, anything else leaves the cache alone.
pub open spec fn after_read(
    m: Map<Seq<char>, EntryView>,
    key: Seq<char>,
    outcome: RunOutcome,
    now: int,
    ttl: int,
) -> Map<Seq<char>, EntryView> {
    match run_result(outcome) {
        Ok(out) => m.insert(key, (expiry_after(now, ttl), out.stdout@)),
        Err(_) => m,
    }
}

/// Builds the cache key of the image listing.
pub fn listing_cache_key() -> (r: String)
    ensures
        r@ == listing_key(),
{
    let args = vec![String::from_str("list"), String::from_str("-j")];
    let r = cache_key("imgadm", &args);
    assert(views(args@) =~= seq!["list"@, "-j"@]);
    r
}

/// Builds the cache key of the manifest of image `id`.
pub fn image_cache_key(id: &str) -> (r: String)
    ensures
        r@ == image_key(id@),
{
    let args = vec![String::from_str("get"), String::from_str(id)];
    let r = cache_key("imgadm", &args);
    assert(views(args@) =~= seq!["get"@, id@]);
    r
}

/// The state that request handlers share: settings, cached tool output and
/// the imports in flight.
pub struct Context {
    pub config: Config,
    pub cache: Cache,
    pub import_queue: ImportQueue,
}

impl Context {
    pub open spec fn well_formed(&self) -> bool {
        &&& self.cache.well_formed()
        &&& self.import_queue.well_formed()
        &&& self.cache.ttl() == self.config.exec_cache_seconds
    }

    /// Empty state under `config`.
    pub fn new(config: Config) -> (r: Context)
        ensures
            r.well_formed(),
            r.config == config,
            r.cache@ == Map::<Seq<char>, EntryView>::empty(),
            r.import_queue@ == Map::<u128, crate::jobs::ImportJob>::empty(),
    {
        let cache = Cache::new(config.exec_cache_seconds);
        Context { config, cache, import_queue: ImportQueue::new() }
    }

    /// The payload cached under `key`, if it is still valid now. Whatever
    /// the clock reads, a payload comes only from the entry for `key`.
    pub fn get_cache(&self, key: &str) -> (r: Option<String>)
        requires
            self.well_formed(),
        ensures
            exists|now: int| opt_view(r) == lookup_at(self.cache@, key@, now),
            r matches Some(s) ==> self.cache@.contains_key(key@) && s@ == self.cache@[key@].1,
    {
        let now = now_nanos();
        self.cache.get(key, now)
    }

    /// Stores `content` under `key` for the configured TTL from now, and
    /// returns the entry it replaces.
    pub fn set_cache(&mut self, key: String, content: String) -> (r: Option<CacheEntry>)
        requires
            old(self).well_formed(),
        ensures
            final(self).well_formed(),
            final(self).config == old(self).config,
            final(self).import_queue == old(self).import_queue,
            exists|now: int|
                final(self).cache@ == old(self).cache@.insert(
                    key@,
                    (expiry_after(now, old(self).config.exec_cache_seconds as int), content@),
                ),
            entry_view(r) == (if old(self).cache@.contains_key(key@) {
                Some(old(self).cache@[key@])
            } else {
                None
            }),
    {
        let now = now_nanos();
        self.cache.set(key, content, now)
    }

    /// Drops the entry under `key` and returns it.
    pub fn remove_cache(&mut self, key: &str) -> (r: Option<CacheEntry>)
        requires
            old(self).well_formed(),
        ensures
            final(self).well_formed(),
            final(self).config == old(self).config,
            final(self).import_queue == old(self).import_queue,
            final(self).cache@ == old(self).cache@.remove(key@),
            entry_view(r) == (if old(self).cache@.contains_key(key@) {
                Some(old(self).cache@[key@])
            } else {
                None
            }),
    {
        self.cache.remove(key)
    }

    /// Finishes a cache miss on `key` at time `now`: a successful run's
    /// stdout is cached and returned; a failure is returned and not cached.
    pub fn finish_read_at(&mut self, key: String, outcome: RunOutcome, now: i128) -> (r: Result<
        String,
        GatewayError,
    >)
        requires
            old(self).well_formed(),
        ensures
            final(self).well_formed(),
            final(self).config == old(self).config,
            final(self).import_queue == old(self).import_queue,
            final(self).cache@ == after_read(
                old(self).cache@,
                key@,
                outcome,
                now as int,
                old(self).config.exec_cache_seconds as int,
            ),
            match run_result(outcome) {
                Ok(out) => r matches Ok(s) && s@ == out.stdout@,
                Err(e) => r == Err::<String, GatewayError>(e),
            },
    {
        match check_output(outcome) {
            Ok(out) => {
                let stdout = out.stdout;
                let cached = stdout.clone();
                self.cache.set(key, cached, now);
                Ok(stdout)
            },
            Err(e) => Err(e),
        }
    }

    /// Finishes a cache miss on `key` with the current time.
    pub fn finish_read(&mut self, key: String, outcome: RunOutcome) -> (r: Result<
        String,
        GatewayError,
    >)
        requires
            old(self).well_formed(),
        ensures
            final(self).well_formed(),
            final(self).config == old(self).config,
            final(self).import_queue == old(self).import_queue,
            exists|now: int|
                final(self).cache@ == after_read(
                    old(self).cache@,
                    key@,
                    outcome,
                    now,
                    old(self).config.exec_cache_seconds as int,
                ),
            match run_result(outcome) {
                Ok(out) => r matches Ok(s) && s@ == out.stdout@,
                Err(e) => r == Err::<String, GatewayError>(e),
            },
    {
        let now = now_nanos();
        self.finish_read_at(key, outcome, now)
    }

    /// After image `id` was deleted: drops its cached manifest and the
    /// cached listing, so that the next reads run the tool again.
    pub fn invalidate_image(&mut self, id: &str)
        requires
            old(self).well_formed(),
        ensures
            final(self).well_formed(),
            final(self).config == old(self).config,
            final(self).import_queue == old(self).import_queue,
            final(self).cache@ == invalidated(old(self).cache@, id@),
    {
        let k = image_cache_key(id);
        self.cache.remove(k.as_str());
        let l = listing_cache_key();
        self.cache.remove(l.as_str());
    }

    /// Records how the import of `id` ended. On success the job is dropped
    /// and the cached listing with it, and the tool's stdout is returned;
    /// otherwise the job is marked failed with the tool's stderr (or the
    /// launch error) and that error is returned.
    pub fn finish_import(&mut self, id: u128, outcome: RunOutcome) -> (r: Result<
        String,
        GatewayError,
    >)
        requires
            old(self).well_formed(),
        ensures
            final(self).well_formed(),
            final(self).config == old(self).config,
            match run_result(outcome) {
                Ok(out) => {
                    &&& r matches Ok(s) && s@ == out.stdout@
                    &&& final(self).import_queue@ == old(self).import_queue@.remove(id)
                    &&& final(self).cache@ == old(self).cache@.remove(listing_key())
                },
                Err(e) => {
                    &&& r == Err::<String, GatewayError>(e)
                    &&& final(self).cache == old(self).cache
                    &&& exists|m: String|
                        m@ == crate::runner::failure_text(e) && final(self).import_queue@
                            == after_failure(old(self).import_queue@, id, m)
                },
            },
    {
        match check_output(outcome) {
            Ok(out) => {
                self.import_queue.complete(id);
                let l = listing_cache_key();
                self.cache.remove(l.as_str());
                Ok(out.stdout)
            },
            Err(e) => {
                let text = match &e {
                    GatewayError::SpawnFailure(t) => t.clone(),
                    GatewayError::ToolFailure(t) => t.clone(),
                    GatewayError::Conflict(_) => String::new(),
                    GatewayError::LockFailure => String::new(),
                };
                let ghost m = text;
                assert(m@ == crate::runner::failure_text(e));
                self.import_queue.mark_failed(id, text);
                assert(self.import_queue@ == after_failure(old(self).import_queue@, id, m));
                Err(e)
            },
        }
    }
}

/// After a delete of image `id`, a read of its manifest or of the listing
/// misses at any time and so runs the tool again.
pub proof fn lemma_invalidation_on_delete(m: Map<Seq<char>, EntryView>, id: Seq<char>, now: int)
    ensures
        lookup_at(invalidated(m, id), image_key(id), now) is None,
        lookup_at(invalidated(m, id), listing_key(), now) is None,
{
}

} // verus!
