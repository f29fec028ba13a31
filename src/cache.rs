use vstd::prelude::*;

verus! {

/// How long a staged source tree may go unmodified: 32 minutes.
pub const SOURCE_RETENTION_SECS: u64 = 32 * 60;

/// How long shared build output may go unread: 2 days.
pub const BUILD_RETENTION_SECS: u64 = 2 * 24 * 60 * 60;

/// How long a compiled binary may go unused: 8 days.
pub const BINARY_RETENTION_SECS: u64 = 8 * 24 * 60 * 60;

/// One of the three cache directories.
#[derive(Clone, Copy, Debug, PartialEq, Eq, Structural)]
pub enum CacheDir {
    /// `src/`: staged source trees, rebuilt on every run.
    Source,
    /// `tmp/`: the toolchain's shared build output.
    Build,
    /// `bin/`: promoted binaries.
    Binary,
}

/// The timestamp that tells whether an entry has gone stale.
#[derive(Clone, Copy, Debug, PartialEq, Eq, Structural)]
pub enum Staleness {
    Modified,
    Accessed,
}

/// An entry's timestamps, in seconds since the Unix epoch.
#[derive(Clone, Copy, Debug, PartialEq, Eq, Structural)]
pub struct EntryTimes {
    pub modified: u64,
    pub accessed: u64,
}

impl CacheDir {
    pub open spec fn spec_signal(self) -> Staleness {
        match self {
            CacheDir::Source => Staleness::Modified,
            CacheDir::Build => Staleness::Accessed,
            CacheDir::Binary => Staleness::Accessed,
        }
    }

    pub open spec fn spec_retention(self) -> u64 {
        match self {
            CacheDir::Source => SOURCE_RETENTION_SECS,
            CacheDir::Build => BUILD_RETENTION_SECS,
            CacheDir::Binary => BINARY_RETENTION_SECS,
        }
    }

    /// Staged sources go stale by modification time, build output and
    /// binaries by access time.
    pub fn signal(self) -> (r: Staleness)
        ensures
            r == self.spec_signal(),
    {
        match self {
            CacheDir::Source => Staleness::Modified,
            CacheDir::Build => Staleness::Accessed,
            CacheDir::Binary => Staleness::Accessed,
        }
    }

    /// How many seconds an entry of this directory is kept past its timestamp.
    pub fn retention_secs(self) -> (r: u64)
        ensures
            r == self.spec_retention(),
    {
        match self {
            CacheDir::Source => SOURCE_RETENTION_SECS,
            CacheDir::Build => BUILD_RETENTION_SECS,
            CacheDir::Binary => BINARY_RETENTION_SECS,
        }
    }
}

/// Seconds from `then` to `now`; a timestamp in the future has age zero.
pub open spec fn age(now: u64, then: u64) -> nat {
    if now > then {
        (now - then) as nat
    } else {
        0
    }
}

/// The timestamp the directory's policy reads.
pub open spec fn signal_time(dir: CacheDir, times: EntryTimes) -> u64 {
    match dir.spec_signal() {
        Staleness::Modified => times.modified,
        Staleness::Accessed => times.accessed,
    }
}

/// An entry is stale once its signal is older than the directory's retention.
pub open spec fn spec_is_stale(dir: CacheDir, times: EntryTimes, now: u64) -> bool {
    age(now, signal_time(dir, times)) > dir.spec_retention() as nat
}

/// Whether a sweep of `dir` at time `now` removes the entry.
pub fn is_stale(dir: CacheDir, times: EntryTimes, now: u64) -> (r: bool)
    ensures
        r == spec_is_stale(dir, times, now),
{
    let then = match dir.signal() {
        Staleness::Modified => times.modified,
        Staleness::Accessed => times.accessed,
    };
    now > then && now - then > dir.retention_secs()
}

/// The positions of the entries a sweep of `dir` at time `now` removes, in
/// increasing order.
pub fn stale_entries(dir: CacheDir, entries: &Vec<EntryTimes>, now: u64) -> (r: Vec<usize>)
    ensures
        forall|k: int| 0 <= k < r@.len() ==> r@[k] < entries@.len(),
        forall|k: int, l: int| 0 <= k < l < r@.len() ==> r@[k] < r@[l],
        forall|i: int| 0 <= i < entries@.len() ==> (r@.contains(i as usize) <==> spec_is_stale(dir, #[trigger] entries@[i], now)),
{
    let mut r: Vec<usize> = Vec::new();
    let mut i: usize = 0;
    while i < entries.len()
        invariant
            i <= entries@.len(),
            forall|k: int| 0 <= k < r@.len() ==> r@[k] < i,
            forall|k: int, l: int| 0 <= k < l < r@.len() ==> r@[k] < r@[l],
            forall|j: int| 0 <= j < i ==> (r@.contains(j as usize) <==> spec_is_stale(dir, #[trigger] entries@[j], now)),
        decreases entries@.len() - i,
    {
        let ghost prev = r@;
        let stale = is_stale(dir, entries[i], now);
        if stale {
            r.push(i);
        }
        proof {
            assert forall|j: int| 0 <= j < i + 1 implies (r@.contains(j as usize) <==> spec_is_stale(
                dir,
                #[trigger] entries@[j],
                now,
            )) by {
                if r@.contains(j as usize) {
                    let k = choose|k: int| 0 <= k < r@.len() && r@[k] == j as usize;
                    if k < prev.len() {
                        assert(prev[k] == j as usize);
                    }
                }
                if j < i && prev.contains(j as usize) {
                    let k = choose|k: int| 0 <= k < prev.len() && prev[k] == j as usize;
                    assert(r@[k] == j as usize);
                }
                if j == i && stale {
                    assert(r@[r@.len() - 1] == i);
                }
            }
        }
        i += 1;
    }
    r
}

/// A binary leaves the cache exactly when it was last used longer ago than
/// the binary retention, however old its modification time is.
pub proof fn lemma_binary_eviction_follows_access(times: EntryTimes, now: u64, modified: u64)
    ensures
        spec_is_stale(CacheDir::Binary, times, now) <==> age(now, times.accessed) > BINARY_RETENTION_SECS as nat,
        spec_is_stale(CacheDir::Binary, EntryTimes { modified, accessed: times.accessed }, now)
            == spec_is_stale(CacheDir::Binary, times, now),
{
}

} // verus!
