//! The on-disk cache of model-index answers: where an entry lives and when it
//! is still good.
use vstd::prelude::*;
use crate::text::{chars_of, concat_chars, string_of};

verus! {

/// How long a cached listing stays fresh, in seconds (six hours).
pub const CACHE_TTL_SECS: u64 = 21600;

/// A cache entry written at `timestamp` is still good at `now` (both in
/// seconds since the epoch) when no more than `ttl_secs` have passed; a
/// timestamp in the future counts as no time passed.
pub open spec fn fresh(now: u64, timestamp: u64, ttl_secs: u64) -> bool {
    (if now >= timestamp {
        now - timestamp
    } else {
        0
    }) <= ttl_secs
}

/// An entry stays good from the moment it is written until `ttl_secs`
/// seconds later, and not a second longer.
pub proof fn lemma_fresh_for_ttl(timestamp: u64, ttl_secs: u64, now: u64)
    ensures
        timestamp <= now <= timestamp + ttl_secs ==> fresh(now, timestamp, ttl_secs),
        now > timestamp + ttl_secs ==> !fresh(now, timestamp, ttl_secs),
        fresh(timestamp, timestamp, ttl_secs),
{
}

/// Whether a cache entry written at `timestamp` is still good at `now`.
pub fn is_fresh(now: u64, timestamp: u64, ttl_secs: u64) -> (r: bool)
    ensures
        r == fresh(now, timestamp, ttl_secs),
{
    now.saturating_sub(timestamp) <= ttl_secs
}

/// The file that holds the cache entry of a key: `<key>.json`.
pub fn entry_file_name(key: &str) -> (r: String)
    ensures
        r@ == key@ + ".json"@,
{
    let k = chars_of(key);
    let ext = chars_of(".json");
    let all = concat_chars(&k, &ext);
    string_of(all.as_slice())
}

/// A cache of model-index answers kept as `<key>.json` files in one directory.
pub struct Cache {
    dir: String,
}

impl View for Cache {
    type V = Seq<char>;

    /// The cache's directory.
    closed spec fn view(&self) -> Seq<char> {
        self.dir@
    }
}

impl Cache {
    /// A cache kept in the directory `dir`.
    pub fn in_dir(dir: String) -> (c: Cache)
        ensures
            c@ == dir@,
    {
        Cache { dir }
    }

    /// The directory the cache is kept in.
    pub fn dir(&self) -> (d: &str)
        ensures
            d@ == self@,
    {
        self.dir.as_str()
    }

    /// The path of the file that holds the entry of a key: `<dir>/<key>.json`.
    pub fn entry_path(&self, key: &str) -> (p: String)
        ensures
            p@ == self@ + "/"@ + key@ + ".json"@,
    {
        let d = chars_of(self.dir.as_str());
        let sep = chars_of("/");
        let f = chars_of(entry_file_name(key).as_str());
        let head = concat_chars(&d, &sep);
        let all = concat_chars(&head, &f);
        assert(all@ =~= self@ + "/"@ + key@ + ".json"@);
        string_of(all.as_slice())
    }
}

} // verus!
